//! Namespace names.
use vstd::prelude::*;
use crate::error::{ErrorView, FirnflowError};
use crate::text;

verus! {

/// A checked namespace name: the prefix of its objects, and the key of
/// everything that is kept per namespace.
#[derive(Debug, PartialEq, Eq, Hash)]
pub struct NamespaceId {
    name: String,
}

/// Whether a character may stand in a namespace name.
pub open spec fn name_char(c: char) -> bool {
    'a' <= c <= 'z' || '0' <= c <= '9' || c == '-' || c == '_'
}

/// Whether a text is a namespace name: not empty, and nothing but lower-case
/// ASCII letters, digits, hyphens and underscores.
pub open spec fn is_name(s: Seq<char>) -> bool {
    s.len() > 0 && forall|i: int| 0 <= i < s.len() ==> name_char(#[trigger] s[i])
}

impl View for NamespaceId {
    type V = Seq<char>;

    closed spec fn view(&self) -> Seq<char> {
        self.name@
    }
}

impl Clone for NamespaceId {
    fn clone(&self) -> (r: NamespaceId)
        ensures
            r == *self,
    {
        proof {
            use_type_invariant(self);
        }
        NamespaceId { name: self.name.clone() }
    }
}

impl NamespaceId {
    #[verifier::type_invariant]
    spec fn well_formed(self) -> bool {
        is_name(self.name@)
    }

    /// Checks a name.
    pub fn new(name: &str) -> (r: Result<NamespaceId, FirnflowError>)
        ensures
            match r {
                Ok(ns) => is_name(name@) && ns@ == name@,
                Err(e) => !is_name(name@) && e@ == ErrorView::InvalidNamespace(name@),
            },
    {
        let chars = text::chars_of(name);
        let mut valid = chars.len() > 0;
        let mut i: usize = 0;
        while i < chars.len() && valid
            invariant
                i <= chars@.len(),
                chars@ == name@,
                valid ==> chars@.len() > 0 && forall|k: int|
                    0 <= k < i ==> name_char(#[trigger] chars@[k]),
                !valid ==> !is_name(name@),
            decreases chars@.len() - i,
        {
            let c = chars[i];
            if !(('a' <= c && c <= 'z') || ('0' <= c && c <= '9') || c == '-' || c == '_') {
                assert(!name_char(chars@[i as int]));
                valid = false;
            }
            i = i + 1;
        }
        if valid {
            Ok(NamespaceId { name: name.to_string() })
        } else {
            Err(FirnflowError::InvalidNamespace(name.to_string()))
        }
    }

    /// The name.
    pub fn as_str(&self) -> (r: &str)
        ensures
            r@ == self@,
            is_name(r@),
    {
        proof {
            use_type_invariant(self);
        }
        self.name.as_str()
    }
}

// ------------------------------------------------------------------ laws
/// A namespace name is one or more of the characters `a` to `z`, `0` to `9`, hyphen
/// and underscore, and nothing else: no capitals, no dots and no slashes.
pub proof fn law_names_are_plain(s: Seq<char>)
    ensures
        is_name(s) <==> s.len() > 0 && forall|i: int|
            #![trigger s[i]]
            0 <= i < s.len() ==> ('a' <= s[i] && s[i] <= 'z') || ('0' <= s[i] && s[i] <= '9') || s[i]
                == '-' || s[i] == '_',
        is_name(s) ==> !s.contains('/') && !s.contains('.'),
{
    if is_name(s) {
        assert forall|i: int| 0 <= i < s.len() implies s[i] != '/' && s[i] != '.' by {
            assert(name_char(s[i]));
        }
    }
    if s.len() > 0 && (forall|i: int|
        #![trigger s[i]]
        0 <= i < s.len() ==> ('a' <= s[i] && s[i] <= 'z') || ('0' <= s[i] && s[i] <= '9') || s[i] == '-'
            || s[i] == '_') {
        assert forall|i: int| 0 <= i < s.len() implies name_char(#[trigger] s[i]) by {
            let c = s[i];
            assert(('a' <= c && c <= 'z') || ('0' <= c && c <= '9') || c == '-' || c == '_');
        }
    }
}

} // verus!
