//! Access modes parsed from mode strings such as `"r"`, `"w+"` or `"ab"`.
use vstd::prelude::*;
use vstd::string::StrSliceExecFns;

verus! {

/// Whether the character `c` occurs in `s`.
pub open spec fn has_char(s: Seq<char>, c: char) -> bool {
    exists|i: int| 0 <= i < s.len() && s[i] == c
}

/// The capability flags that an access-mode string requests.
#[derive(Clone, Copy, Debug, PartialEq, Eq, Structural)]
pub struct Mode {
    pub appending: bool,
    pub create: bool,
    pub exclusive: bool,
    pub reading: bool,
    pub truncate: bool,
    pub updating: bool,
    pub writing: bool,
}

/// The mode that a string denotes: each flag is set exactly when one of
/// the characters that request it occurs; other characters are ignored.
pub open spec fn mode_of(s: Seq<char>) -> Mode {
    Mode {
        appending: has_char(s, 'a'),
        create: has_char(s, 'w') || has_char(s, 'a') || has_char(s, 'x'),
        exclusive: has_char(s, 'x'),
        reading: has_char(s, 'r') || has_char(s, '+'),
        truncate: has_char(s, 'w') || has_char(s, 'x'),
        updating: false,
        writing: has_char(s, 'w') || has_char(s, 'a') || has_char(s, 'x') || has_char(s, '+'),
    }
}

proof fn lemma_has_char_push(s: Seq<char>, i: int, c: char)
    requires
        0 <= i < s.len(),
    ensures
        has_char(s.take(i + 1), c) == (has_char(s.take(i), c) || s[i] == c),
{
    let t = s.take(i + 1);
    if has_char(t, c) {
        let j = choose|j: int| 0 <= j < t.len() && t[j] == c;
        if j < i {
            assert(s.take(i)[j] == c);
        }
    }
    if has_char(s.take(i), c) {
        let j = choose|j: int| 0 <= j < i && s.take(i)[j] == c;
        assert(t[j] == c);
    }
    if s[i] == c {
        assert(t[i] == c);
    }
}

impl Mode {
    /// Parses an access-mode string. Never fails: unknown characters are
    /// ignored, and the flags only ever accumulate.
    pub fn parse(spec: &str) -> (m: Mode)
        ensures
            m == mode_of(spec@),
    {
        let mut m = Mode {
            appending: false,
            create: false,
            exclusive: false,
            reading: false,
            truncate: false,
            updating: false,
            writing: false,
        };
        let n = spec.unicode_len();
        let mut i: usize = 0;
        proof {
            assert(spec@.take(0) =~= Seq::<char>::empty());
        }
        while i < n
            invariant
                n == spec@.len(),
                i <= n,
                m == mode_of(spec@.take(i as int)),
            decreases n - i,
        {
            let c = spec.get_char(i);
            proof {
                lemma_has_char_push(spec@, i as int, 'a');
                lemma_has_char_push(spec@, i as int, 'r');
                lemma_has_char_push(spec@, i as int, 'w');
                lemma_has_char_push(spec@, i as int, 'x');
                lemma_has_char_push(spec@, i as int, '+');
            }
            if c == '+' {
                m.reading = true;
                m.writing = true;
            } else if c == 'r' {
                m.reading = true;
            } else if c == 'a' {
                m.appending = true;
                m.writing = true;
                m.create = true;
            } else if c == 'w' {
                m.create = true;
                m.writing = true;
                m.truncate = true;
            } else if c == 'x' {
                m.exclusive = true;
                m.writing = true;
                m.create = true;
                m.truncate = true;
            }
            i = i + 1;
        }
        proof {
            assert(spec@.take(n as int) =~= spec@);
        }
        m
    }
}

impl<'a> From<&'a str> for Mode {
    fn from(spec: &'a str) -> (m: Mode) {
        Mode::parse(spec)
    }
}

impl<'a> vstd::std_specs::convert::FromSpecImpl<&'a str> for Mode {
    open spec fn obeys_from_spec() -> bool {
        true
    }

    open spec fn from_spec(spec: &'a str) -> Mode {
        mode_of(spec@)
    }
}

} // verus!

verus! {

/// The canonical text of a mode, in the style of a binary stream's mode
/// attribute.
pub open spec fn mode_text(m: Mode) -> Seq<char> {
    if m.exclusive {
        if m.reading { "xb+"@ } else { "xb"@ }
    } else if m.appending {
        if m.reading { "ab+"@ } else { "ab"@ }
    } else if m.reading {
        if m.writing { "rb+"@ } else { "rb"@ }
    } else if m.writing {
        "wb"@
    } else {
        ""@
    }
}

impl Mode {
    /// The canonical mode string for these flags.
    pub fn mode_string(&self) -> (s: String)
        ensures
            s@ == mode_text(*self),
    {
        let t = if self.exclusive {
            if self.reading { "xb+" } else { "xb" }
        } else if self.appending {
            if self.reading { "ab+" } else { "ab" }
        } else if self.reading {
            if self.writing { "rb+" } else { "rb" }
        } else if self.writing {
            "wb"
        } else {
            ""
        };
        t.to_owned()
    }
}

} // verus!
