//! Searching a byte sequence for a single byte.
use vstd::prelude::*;

verus! {

/// `r` is the index of the first occurrence of `b` in `s`, if any.
pub open spec fn is_first_index(s: Seq<u8>, b: u8, r: Option<usize>) -> bool {
    match r {
        Some(i) => i < s.len() && s[i as int] == b && forall|j: int| 0 <= j < i ==> s[j] != b,
        None => forall|j: int| 0 <= j < s.len() ==> s[j] != b,
    }
}

/// `r` is the index of the last occurrence of `b` in `s`, if any.
pub open spec fn is_last_index(s: Seq<u8>, b: u8, r: Option<usize>) -> bool {
    match r {
        Some(i) => i < s.len() && s[i as int] == b && forall|j: int| i < j < s.len() ==> s[j] != b,
        None => forall|j: int| 0 <= j < s.len() ==> s[j] != b,
    }
}

/// Finding a byte from the front or from the back.
pub trait QuickFind {
    spec fn haystack(&self) -> Seq<u8>;

    fn quickfind(&self, needle: u8) -> (r: Option<usize>)
        ensures
            is_first_index(self.haystack(), needle, r),
    ;

    fn quickrfind(&self, needle: u8) -> (r: Option<usize>)
        ensures
            is_last_index(self.haystack(), needle, r),
    ;
}

impl QuickFind for [u8] {
    open spec fn haystack(&self) -> Seq<u8> {
        self@
    }

    fn quickfind(&self, needle: u8) -> (r: Option<usize>) {
        let mut i: usize = 0;
        while i < self.len()
            invariant
                i <= self@.len(),
                forall|j: int| 0 <= j < i ==> self@[j] != needle,
            decreases self@.len() - i,
        {
            if self[i] == needle {
                return Some(i);
            }
            i = i + 1;
        }
        None
    }

    fn quickrfind(&self, needle: u8) -> (r: Option<usize>) {
        let mut i: usize = self.len();
        while i > 0
            invariant
                i <= self@.len(),
                forall|j: int| i <= j < self@.len() ==> self@[j] != needle,
            decreases i,
        {
            if self[i - 1] == needle {
                return Some(i - 1);
            }
            i = i - 1;
        }
        None
    }
}

} // verus!
