//! Per-field access capabilities and the parser of field annotations.
use crate::error::GenError;
use vstd::prelude::*;
use vstd::string::*;

verus! {

/// How a field may be read.
#[derive(Debug, PartialEq, Eq, Structural, Clone, Copy)]
pub enum ReadAccess {
    /// The read has no side effect: a shared reference to the handle suffices.
    Pure,
    /// The read has side effects: it takes the handle exclusively.
    Normal,
}

/// The capability set of one field.
#[derive(Debug, PartialEq, Eq, Structural, Clone, Copy)]
pub struct AccessModifiers {
    pub read: Option<ReadAccess>,
    pub write: bool,
    pub modify: bool,
}

impl AccessModifiers {
    /// True when no capability has been given.
    pub open spec fn is_unmodified(self) -> bool {
        self.read is None && !self.write && !self.modify
    }

    /// The capability set of a plain read-write register.
    pub open spec fn read_write() -> AccessModifiers {
        AccessModifiers { read: Some(ReadAccess::Pure), write: true, modify: true }
    }

    /// `Modify` needs both a read and a write capability.
    pub open spec fn is_consistent(self) -> bool {
        self.modify ==> (self.read is Some && self.write)
    }

    /// An empty capability set.
    pub fn empty() -> (r: AccessModifiers)
        ensures
            r.is_unmodified(),
    {
        AccessModifiers { read: None, write: false, modify: false }
    }

    /// Turns an empty capability set into the default one (pure read, write
    /// and modify), and reports whether it did so.
    pub fn convert_unmodified(&mut self) -> (r: bool)
        ensures
            r == old(self).is_unmodified(),
            r ==> *final(self) == AccessModifiers::read_write(),
            !r ==> *final(self) == *old(self),
    {
        if self.read.is_none() && !self.write && !self.modify {
            self.read = Some(ReadAccess::Pure);
            self.write = true;
            self.modify = true;
            return true;
        }
        false
    }
}

} // verus!

verus! {

/// One argument of a field annotation, as it was written.
#[derive(Debug, Clone)]
pub enum AnnotationToken {
    /// A bare word, such as `Read`.
    Word(String),
    /// An argument that is not a bare word (a list or a name-value pair).
    NotAWord,
    /// An annotation whose argument list could not be parsed.
    Malformed,
}

/// The access tokens a field annotation may hold.
#[derive(Debug, PartialEq, Eq, Structural, Clone, Copy)]
pub enum Keyword {
    Read,
    PureRead,
    Write,
    Modify,
    Inner,
}

/// The keyword that a word spells, if any.
pub open spec fn keyword_of(w: Seq<char>) -> Option<Keyword> {
    if w == "Read"@ {
        Some(Keyword::Read)
    } else if w == "PureRead"@ {
        Some(Keyword::PureRead)
    } else if w == "Write"@ {
        Some(Keyword::Write)
    } else if w == "Modify"@ {
        Some(Keyword::Modify)
    } else if w == "inner"@ || w == "Inner"@ {
        Some(Keyword::Inner)
    } else {
        None
    }
}

/// What the annotations of one field have accumulated so far.
#[derive(Debug, PartialEq, Eq, Structural, Clone, Copy)]
pub struct ParseState {
    pub inner: bool,
    pub access: AccessModifiers,
}

/// The state before any token.
pub open spec fn initial_state() -> ParseState {
    ParseState {
        inner: false,
        access: AccessModifiers { read: None, write: false, modify: false },
    }
}

/// Adds one keyword to the state of the field at position `field`. Each
/// category may be given once.
pub open spec fn add_keyword(s: ParseState, k: Keyword, field: usize) -> Result<ParseState, GenError> {
    match k {
        Keyword::Read | Keyword::PureRead => if s.access.read is Some {
            Err(GenError::DuplicateRead { field })
        } else {
            let r = if k == Keyword::Read { ReadAccess::Normal } else { ReadAccess::Pure };
            Ok(ParseState { access: AccessModifiers { read: Some(r), ..s.access }, ..s })
        },
        Keyword::Write => if s.access.write {
            Err(GenError::DuplicateWrite { field })
        } else {
            Ok(ParseState { access: AccessModifiers { write: true, ..s.access }, ..s })
        },
        Keyword::Modify => if s.access.modify {
            Err(GenError::DuplicateModify { field })
        } else {
            Ok(ParseState { access: AccessModifiers { modify: true, ..s.access }, ..s })
        },
        Keyword::Inner => if s.inner {
            Err(GenError::DuplicateInner { field })
        } else {
            Ok(ParseState { inner: true, ..s })
        },
    }
}

/// Adds one token to the state.
pub open spec fn add_token(s: ParseState, t: AnnotationToken, field: usize) -> Result<ParseState, GenError> {
    match t {
        AnnotationToken::Malformed => Err(GenError::MalformedAnnotation { field }),
        AnnotationToken::NotAWord => Err(GenError::UnknownToken { field }),
        AnnotationToken::Word(w) => match keyword_of(w@) {
            None => Err(GenError::UnknownToken { field }),
            Some(k) => add_keyword(s, k, field),
        },
    }
}

/// The tokens read in order; the first refused token decides the error.
pub open spec fn scan_tokens(toks: Seq<AnnotationToken>, field: usize) -> Result<ParseState, GenError>
    decreases toks.len(),
{
    if toks.len() == 0 {
        Ok(initial_state())
    } else {
        match scan_tokens(toks.drop_last(), field) {
            Ok(s) => add_token(s, toks.last(), field),
            Err(e) => Err(e),
        }
    }
}

/// What a field's annotation amounts to.
#[derive(Debug, PartialEq, Eq, Structural, Clone, Copy)]
pub enum FieldAccess {
    /// The field is a nested register block.
    Inner,
    /// The field is a register (or an array of registers) with these capabilities.
    Plain(AccessModifiers),
}

/// The meaning of a complete annotation: an `inner` field takes no other
/// token, `Modify` needs a read and a write, and a field without any token
/// is a plain read-write register.
pub open spec fn field_access_spec(toks: Seq<AnnotationToken>, field: usize) -> Result<FieldAccess, GenError> {
    match scan_tokens(toks, field) {
        Err(e) => Err(e),
        Ok(s) => if s.inner {
            if s.access.is_unmodified() {
                Ok(FieldAccess::Inner)
            } else {
                Err(GenError::InnerWithAccess { field })
            }
        } else if !s.access.is_consistent() {
            Err(GenError::ModifyWithoutReadWrite { field })
        } else if s.access.is_unmodified() {
            Ok(FieldAccess::Plain(AccessModifiers::read_write()))
        } else {
            Ok(FieldAccess::Plain(s.access))
        },
    }
}

/// Recognizes an access keyword.
pub fn keyword(w: &String) -> (r: Option<Keyword>)
    ensures
        r == keyword_of(w@),
{
    if *w == String::from_str("Read") {
        Some(Keyword::Read)
    } else if *w == String::from_str("PureRead") {
        Some(Keyword::PureRead)
    } else if *w == String::from_str("Write") {
        Some(Keyword::Write)
    } else if *w == String::from_str("Modify") {
        Some(Keyword::Modify)
    } else if *w == String::from_str("inner") || *w == String::from_str("Inner") {
        Some(Keyword::Inner)
    } else {
        None
    }
}

fn add_keyword_exec(s: ParseState, k: Keyword, field: usize) -> (r: Result<ParseState, GenError>)
    ensures
        r == add_keyword(s, k, field),
{
    let mut n = s;
    match k {
        Keyword::Read | Keyword::PureRead => {
            if s.access.read.is_some() {
                return Err(GenError::DuplicateRead { field });
            }
            n.access.read = Some(
                match k {
                    Keyword::Read => ReadAccess::Normal,
                    _ => ReadAccess::Pure,
                },
            );
        },
        Keyword::Write => {
            if s.access.write {
                return Err(GenError::DuplicateWrite { field });
            }
            n.access.write = true;
        },
        Keyword::Modify => {
            if s.access.modify {
                return Err(GenError::DuplicateModify { field });
            }
            n.access.modify = true;
        },
        Keyword::Inner => {
            if s.inner {
                return Err(GenError::DuplicateInner { field });
            }
            n.inner = true;
        },
    }
    Ok(n)
}

/// Parses the annotation tokens of the field at position `field`.
pub fn parse_field_access(toks: &Vec<AnnotationToken>, field: usize) -> (r: Result<FieldAccess, GenError>)
    ensures
        r == field_access_spec(toks@, field),
{
    let mut s = ParseState { inner: false, access: AccessModifiers::empty() };
    let mut i: usize = 0;
    while i < toks.len()
        invariant
            i <= toks@.len(),
            scan_tokens(toks@.subrange(0, i as int), field) == Ok::<ParseState, GenError>(s),
        decreases toks.len() - i,
    {
        assert(toks@.subrange(0, i + 1).drop_last() == toks@.subrange(0, i as int));
        let step = match &toks[i] {
            AnnotationToken::Malformed => Err(GenError::MalformedAnnotation { field }),
            AnnotationToken::NotAWord => Err(GenError::UnknownToken { field }),
            AnnotationToken::Word(w) => match keyword(w) {
                None => Err(GenError::UnknownToken { field }),
                Some(k) => add_keyword_exec(s, k, field),
            },
        };
        match step {
            Ok(n) => {
                s = n;
            },
            Err(e) => {
                proof {
                    lemma_scan_stops(toks@, field, i as int);
                }
                return Err(e);
            },
        }
        i = i + 1;
    }
    assert(toks@.subrange(0, i as int) == toks@);
    if s.inner {
        if s.access.read.is_none() && !s.access.write && !s.access.modify {
            Ok(FieldAccess::Inner)
        } else {
            Err(GenError::InnerWithAccess { field })
        }
    } else if s.access.modify && (s.access.read.is_none() || !s.access.write) {
        Err(GenError::ModifyWithoutReadWrite { field })
    } else {
        let mut a = s.access;
        a.convert_unmodified();
        Ok(FieldAccess::Plain(a))
    }
}

/// Once a token is refused, the tokens after it do not change the error.
proof fn lemma_scan_stops(toks: Seq<AnnotationToken>, field: usize, i: int)
    requires
        0 <= i < toks.len(),
        scan_tokens(toks.subrange(0, i + 1), field) is Err,
    ensures
        scan_tokens(toks, field) == scan_tokens(toks.subrange(0, i + 1), field),
    decreases toks.len() - i,
{
    if i + 1 < toks.len() {
        let j = toks.len() - 1;
        assert(toks.drop_last() == toks.subrange(0, j));
        assert(toks.subrange(0, j).subrange(0, i + 1) == toks.subrange(0, i + 1));
        lemma_scan_stops(toks.subrange(0, j), field, i);
    } else {
        assert(toks.subrange(0, i + 1) == toks);
    }
}

} // verus!
