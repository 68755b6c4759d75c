//! Output-path derivation and display helpers.
//!
//! Encryption always appends `.enc` to the input path, even when the path
//! already ends in `.enc` (a deliberate, user-visible quirk). Decryption
//! strips one trailing `.enc` layer and inserts `_decrypted` before the last
//! remaining extension, or appends it when there is none.

use vstd::prelude::*;

verus! {

/// The path ends in `.enc`.
pub open spec fn ends_with_enc(p: Seq<char>) -> bool {
    &&& p.len() >= 4
    &&& p[p.len() - 4] == '.'
    &&& p[p.len() - 3] == 'e'
    &&& p[p.len() - 2] == 'n'
    &&& p[p.len() - 1] == 'c'
}

/// The index of the last `.` in `s`, or -1 when `s` has none.
pub open spec fn rfind_dot(s: Seq<char>) -> int
    decreases s.len(),
{
    if s.len() == 0 {
        -1
    } else if s[s.len() - 1] == '.' {
        s.len() - 1
    } else {
        rfind_dot(s.take(s.len() - 1))
    }
}

proof fn lemma_rfind_dot_none(s: Seq<char>)
    requires
        forall|j: int| 0 <= j < s.len() ==> #[trigger] s[j] != '.',
    ensures
        rfind_dot(s) == -1,
    decreases s.len(),
{
    if s.len() > 0 {
        lemma_rfind_dot_none(s.take(s.len() - 1));
    }
}

proof fn lemma_rfind_dot_at(s: Seq<char>, d: int)
    requires
        0 <= d < s.len(),
        s[d] == '.',
        forall|j: int| d < j < s.len() ==> #[trigger] s[j] != '.',
    ensures
        rfind_dot(s) == d,
    decreases s.len(),
{
    if d < s.len() - 1 {
        lemma_rfind_dot_at(s.take(s.len() - 1), d);
    }
}

/// The path an encrypted file is written to: the input path with `.enc`
/// appended.
pub open spec fn spec_encrypt_output_path(p: Seq<char>) -> Seq<char> {
    p + ".enc"@
}

/// The path a decrypted file is written to. With a trailing `.enc`: that
/// layer is stripped, and `_decrypted` goes before the last extension of
/// what remains, or at its end when no extension remains. Without one:
/// `_decrypted` goes at the end of the path.
pub open spec fn spec_decrypt_output_path(p: Seq<char>) -> Seq<char> {
    if ends_with_enc(p) {
        let rem = p.take(p.len() - 4);
        let pos = rfind_dot(rem);
        if pos >= 0 {
            rem.take(pos) + "_decrypted"@ + rem.skip(pos)
        } else {
            rem + "_decrypted"@
        }
    } else {
        p + "_decrypted"@
    }
}

/// The path an encrypted file is written to.
pub fn encrypt_output_path(p: &str) -> (r: String)
    ensures
        r@ == spec_encrypt_output_path(p@),
{
    String::from_str(p).concat(".enc")
}

/// The path a decrypted file is written to.
pub fn decrypt_output_path(p: &str) -> (r: String)
    ensures
        r@ == spec_decrypt_output_path(p@),
{
    let n = p.unicode_len();
    let is_enc = n >= 4 && p.get_char(n - 4) == '.' && p.get_char(n - 3) == 'e' && p.get_char(
        n - 2,
    ) == 'n' && p.get_char(n - 1) == 'c';
    if !is_enc {
        return String::from_str(p).concat("_decrypted");
    }
    let rem_len = n - 4;
    let rem = p.substring_char(0, rem_len);
    proof {
        assert(rem@ =~= p@.take(p@.len() - 4));
    }
    let mut dot: Option<usize> = None;
    let mut i: usize = 0;
    while i < rem_len
        invariant
            rem@.len() == rem_len,
            i <= rem_len,
            match dot {
                Some(d) => 0 <= d < i && rem@[d as int] == '.' && forall|j: int|
                    d < j < i ==> #[trigger] rem@[j] != '.',
                None => forall|j: int| 0 <= j < i ==> #[trigger] rem@[j] != '.',
            },
        decreases rem_len - i,
    {
        if rem.get_char(i) == '.' {
            dot = Some(i);
        }
        i = i + 1;
    }
    match dot {
        Some(d) => {
            proof {
                lemma_rfind_dot_at(rem@, d as int);
            }
            let base = rem.substring_char(0, d);
            let ext = rem.substring_char(d, rem_len);
            let r = String::from_str(base).concat("_decrypted").concat(ext);
            proof {
                assert(base@ =~= rem@.take(d as int));
                assert(ext@ =~= rem@.skip(d as int));
            }
            r
        },
        None => {
            proof {
                lemma_rfind_dot_none(rem@);
            }
            String::from_str(rem).concat("_decrypted")
        },
    }
}

/// The middle-elided form of `s` used for status text: `s` itself when it
/// has at most `max_length` characters, else its first and last
/// `max_length / 2` characters around `....`.
pub open spec fn spec_truncate_middle(s: Seq<char>, max: nat) -> Seq<char> {
    if s.len() <= max {
        s
    } else {
        s.take((max / 2) as int) + "...."@ + s.skip(s.len() - (max / 2) as int)
    }
}

/// The middle-elided form of `s`, at most `max_length` characters of `s`
/// plus the four-dot ellipsis.
pub fn truncate_middle(s: &str, max_length: usize) -> (r: String)
    ensures
        r@ == spec_truncate_middle(s@, max_length as nat),
{
    let n = s.unicode_len();
    if n <= max_length {
        String::from_str(s)
    } else {
        let half = max_length / 2;
        let head = s.substring_char(0, half);
        let tail = s.substring_char(n - half, n);
        let r = String::from_str(head).concat("....").concat(tail);
        proof {
            assert(head@ =~= s@.take(half as int));
            assert(tail@ =~= s@.skip(s@.len() - half as int));
        }
        r
    }
}

} // verus!
