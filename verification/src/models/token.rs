//! The opaque credential handed to the REST client and the gateway session.

use vstd::prelude::*;

verus! {

/// A character the platform's credential validation treats as blank space.
pub open spec fn is_space_char(c: char) -> bool {
    let u = c as u32;
    (9 <= u && u <= 13) || u == 32 || u == 0x85 || u == 0xA0 || u == 0x1680 || (0x2000 <= u && u
        <= 0x200A) || u == 0x2028 || u == 0x2029 || u == 0x202F || u == 0x205F || u == 0x3000
}

/// A credential string is blank when every character is blank space; the
/// empty string is blank.
pub open spec fn token_blank(s: Seq<char>) -> bool {
    forall|k: int| 0 <= k < s.len() ==> is_space_char(#[trigger] s[k])
}

/// Opaque credential string. A blank token is never accepted for login, so
/// builders reject it before any request is made.
#[derive(Debug, Clone)]
pub struct Token(pub String);

impl Token {
    /// True exactly when the credential is empty or all blank space, the
    /// condition under which construction of a client is refused.
    pub fn is_empty(&self) -> (r: bool)
        ensures
            r == token_blank(self.0@),
    {
        let s: &str = self.0.as_str();
        let len = s.unicode_len();
        let mut i: usize = 0;
        while i < len
            invariant
                len == s@.len(),
                s@ == self.0@,
                0 <= i <= len,
                forall|k: int| 0 <= k < i ==> is_space_char(#[trigger] s@[k]),
            decreases len - i,
        {
            let c = s.get_char(i);
            let u = c as u32;
            let blank = (9 <= u && u <= 13) || u == 32 || u == 0x85 || u == 0xA0 || u == 0x1680
                || (0x2000 <= u && u <= 0x200A) || u == 0x2028 || u == 0x2029 || u == 0x202F || u
                == 0x205F || u == 0x3000;
            if !blank {
                return false;
            }
            i = i + 1;
        }
        true
    }
}

} // verus!
