//! The digest engine: content addressing of byte buffers and syntactic
//! validation of the digest strings found inside manifests.
//!
//! The canonical textual form is `"sha256:"` followed by exactly 64
//! lowercase hexadecimal characters.
use vstd::prelude::*;

verus! {

/// A lowercase hexadecimal character.
pub open spec fn is_lower_hex_char(c: char) -> bool {
    (('0' as u32) <= (c as u32) && (c as u32) <= ('9' as u32)) || (('a' as u32) <= (c as u32)
        && (c as u32) <= ('f' as u32))
}

/// A syntactically valid digest string: the `"sha256:"` prefix followed
/// by exactly 64 lowercase hexadecimal characters.
pub open spec fn valid_digest_str(s: Seq<char>) -> bool {
    &&& s.len() == 71
    &&& s.subrange(0, 7) == "sha256:"@
    &&& forall|i: int| 7 <= i < 71 ==> is_lower_hex_char(#[trigger] s[i])
}

/// The failure kind of the digest engine: a string inside a manifest is
/// not a syntactically valid digest.
#[derive(Debug, PartialEq, Eq)]
pub enum DigestError {
    /// Carries the offending string.
    InvalidDigestFormat(String),
}

/// A content-address identifier in canonical textual form, known to be
/// syntactically valid.
#[derive(Debug, PartialEq, Eq)]
pub struct Digest {
    string: String,
}

impl View for Digest {
    type V = Seq<char>;

    closed spec fn view(&self) -> Seq<char> {
        self.string@
    }
}

impl Digest {
    /// Every digest value is syntactically valid.
    pub open spec fn wf(&self) -> bool {
        valid_digest_str(self@)
    }

    /// Validates a digest string; returns the digest exactly when the
    /// string is syntactically valid, and the distinct digest error kind
    /// otherwise.
    pub fn try_from_str(s: &str) -> (r: Result<Digest, DigestError>)
        ensures
            match r {
                Ok(d) => valid_digest_str(s@) && d@ == s@ && d.wf(),
                Err(e) => !valid_digest_str(s@) && match e {
                    DigestError::InvalidDigestFormat(t) => t@ == s@,
                },
            },
    {
        if check_digest_str(s) {
            Ok(Digest { string: s.to_owned() })
        } else {
            Err(DigestError::InvalidDigestFormat(s.to_owned()))
        }
    }

    /// The canonical string form of this digest.
    pub fn to_string(&self) -> (s: String)
        ensures
            s@ == self@,
    {
        self.string.clone()
    }

    /// The canonical string form of this digest, borrowed.
    pub fn as_str(&self) -> (s: &str)
        ensures
            s@ == self@,
    {
        self.string.as_str()
    }
}

/// Checks whether a string is a syntactically valid digest.
fn check_digest_str(s: &str) -> (b: bool)
    ensures
        b == valid_digest_str(s@),
{
    proof {
        reveal_strlit("sha256:");
    }
    let n = s.unicode_len();
    if n != 71 {
        return false;
    }
    if s.get_char(0) != 's' || s.get_char(1) != 'h' || s.get_char(2) != 'a' || s.get_char(3)
        != '2' || s.get_char(4) != '5' || s.get_char(5) != '6' || s.get_char(6) != ':' {
        proof {
            assert(s@.subrange(0, 7) == "sha256:"@ ==> {
                &&& s@[0] == 's'
                &&& s@[1] == 'h'
                &&& s@[2] == 'a'
                &&& s@[3] == '2'
                &&& s@[4] == '5'
                &&& s@[5] == '6'
                &&& s@[6] == ':'
            }) by {
                if s@.subrange(0, 7) == "sha256:"@ {
                    assert forall|i: int| 0 <= i < 7 implies s@[i] == "sha256:"@[i] by {
                        assert(s@.subrange(0, 7)[i] == s@[i]);
                    }
                }
            }
        }
        return false;
    }
    proof {
        assert(s@.subrange(0, 7) =~= "sha256:"@);
    }
    let mut i: usize = 7;
    while i < 71
        invariant
            7 <= i <= 71,
            s@.len() == 71,
            forall|j: int| 7 <= j < i ==> is_lower_hex_char(#[trigger] s@[j]),
        decreases 71 - i,
    {
        let c = s.get_char(i);
        let u = c as u32;
        let digit = ('0' as u32) <= u && u <= ('9' as u32);
        let lower = ('a' as u32) <= u && u <= ('f' as u32);
        if !digit && !lower {
            return false;
        }
        i += 1;
    }
    true
}

/// The SHA-256 digest of a byte sequence. The algorithm's definition
/// stands outside this crate; the contracts here rely only on the result
/// being a function of the bytes alone.
pub uninterp spec fn sha256_of(bytes: Seq<u8>) -> Seq<u8>;

/// Relies on sha2::Sha256 (through the digest crate's `Digest::digest`):
/// deterministic SHA-256 of the input bytes, always 32 bytes long.
#[verifier::external_body]
fn sha256_raw(bytes: &[u8]) -> (h: Vec<u8>)
    ensures
        h@ == sha256_of(bytes@),
        h@.len() == 32,
{
    <sha2::Sha256 as sha2::digest::Digest>::digest(bytes).to_vec()
}

/// The hexadecimal digit character for a value below sixteen.
pub open spec fn hex_digit_char(d: nat) -> char
    recommends
        d < 16,
{
    if d == 0 {
        '0'
    } else if d == 1 {
        '1'
    } else if d == 2 {
        '2'
    } else if d == 3 {
        '3'
    } else if d == 4 {
        '4'
    } else if d == 5 {
        '5'
    } else if d == 6 {
        '6'
    } else if d == 7 {
        '7'
    } else if d == 8 {
        '8'
    } else if d == 9 {
        '9'
    } else if d == 10 {
        'a'
    } else if d == 11 {
        'b'
    } else if d == 12 {
        'c'
    } else if d == 13 {
        'd'
    } else if d == 14 {
        'e'
    } else {
        'f'
    }
}

/// Lowercase hexadecimal rendering of a byte sequence, two characters
/// per byte, in order.
pub open spec fn hex_str_of(bytes: Seq<u8>) -> Seq<char>
    decreases bytes.len(),
{
    if bytes.len() == 0 {
        Seq::empty()
    } else {
        hex_str_of(bytes.drop_last()) + seq![
            hex_digit_char((bytes.last() / 16) as nat),
            hex_digit_char((bytes.last() % 16) as nat),
        ]
    }
}

proof fn lemma_hex_str_of_props(bytes: Seq<u8>)
    ensures
        hex_str_of(bytes).len() == 2 * bytes.len(),
        forall|i: int|
            0 <= i < hex_str_of(bytes).len() ==> is_lower_hex_char(#[trigger] hex_str_of(bytes)[i]),
    decreases bytes.len(),
{
    if bytes.len() > 0 {
        lemma_hex_str_of_props(bytes.drop_last());
    }
}

fn hex_digit_str(d: u8) -> (s: &'static str)
    requires
        d < 16,
    ensures
        s@ == seq![hex_digit_char(d as nat)],
{
    let s: &'static str = if d == 0 {
        "0"
    } else if d == 1 {
        "1"
    } else if d == 2 {
        "2"
    } else if d == 3 {
        "3"
    } else if d == 4 {
        "4"
    } else if d == 5 {
        "5"
    } else if d == 6 {
        "6"
    } else if d == 7 {
        "7"
    } else if d == 8 {
        "8"
    } else if d == 9 {
        "9"
    } else if d == 10 {
        "a"
    } else if d == 11 {
        "b"
    } else if d == 12 {
        "c"
    } else if d == 13 {
        "d"
    } else if d == 14 {
        "e"
    } else {
        "f"
    };
    proof {
        reveal_strlit("0");
        reveal_strlit("1");
        reveal_strlit("2");
        reveal_strlit("3");
        reveal_strlit("4");
        reveal_strlit("5");
        reveal_strlit("6");
        reveal_strlit("7");
        reveal_strlit("8");
        reveal_strlit("9");
        reveal_strlit("a");
        reveal_strlit("b");
        reveal_strlit("c");
        reveal_strlit("d");
        reveal_strlit("e");
        reveal_strlit("f");
        assert(s@ =~= seq![hex_digit_char(d as nat)]);
    }
    s
}

/// The canonical digest string of a byte sequence.
pub open spec fn spec_sha256_digest_str(bytes: Seq<u8>) -> Seq<char> {
    "sha256:"@ + hex_str_of(sha256_of(bytes))
}

/// Computes the content address of an in-memory byte buffer: the
/// SHA-256 hash of exactly the given bytes, in canonical textual form.
/// There is no stream to read, so the computation cannot fail.
pub fn sha256_digest(bytes: &[u8]) -> (d: Digest)
    ensures
        d@ == spec_sha256_digest_str(bytes@),
        d.wf(),
{
    let h = sha256_raw(bytes);
    let mut s = String::from_str("sha256:");
    let ghost whole = h@;
    let mut i: usize = 0;
    while i < h.len()
        invariant
            h@ == whole,
            whole.len() == 32,
            0 <= i <= 32,
            s@ == "sha256:"@ + hex_str_of(whole.subrange(0, i as int)),
        decreases h.len() - i,
    {
        let b = h[i];
        s.append(hex_digit_str(b / 16));
        s.append(hex_digit_str(b % 16));
        proof {
            let pre = whole.subrange(0, i as int);
            let post = whole.subrange(0, i + 1 as int);
            assert(post.drop_last() =~= pre);
            assert(post.last() == whole[i as int]);
            assert(s@ =~= "sha256:"@ + hex_str_of(post));
        }
        i += 1;
    }
    proof {
        assert(whole.subrange(0, 32) =~= whole);
    }
    let d = Digest { string: s };
    proof {
        reveal_strlit("sha256:");
        lemma_hex_str_of_props(sha256_of(bytes@));
        assert(d@.subrange(0, 7) =~= "sha256:"@);
        assert forall|j: int| 7 <= j < 71 implies is_lower_hex_char(#[trigger] d@[j]) by {
            assert(d@[j] == hex_str_of(sha256_of(bytes@))[j - 7]);
        }
    }
    d
}

} // verus!
