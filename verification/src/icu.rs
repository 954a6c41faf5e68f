//! Text-encoding support: the available encodings, a byte-stream converter
//! between them, ordinal string comparison and case folding.
//!
//! Only the two UTF-8 flavors are offered; the converter between them copies
//! bytes through unchanged.

use vstd::prelude::*;
use vstd::string::StringExecFns;
use vstd::string::StrSliceExecFns;
use crate::apperr::Error;
use crate::sgr::{push_hex, spec_hex};
use crate::strutil::chars_to_string;
use core::cmp::Ordering;

verus! {

/// A label/canonical-name pair for one encoding.
pub struct Encoding {
    pub label: String,
    pub canonical: String,
}

/// The encodings offered to the user, and all supported ones.
pub struct Encodings {
    pub preferred: Vec<Encoding>,
    pub all: Vec<Encoding>,
}

/// Both lists hold exactly UTF-8 and UTF-8 BOM.
pub open spec fn spec_utf8_encodings(v: Seq<Encoding>) -> bool {
    &&& v.len() == 2
    &&& v[0].label@ == "UTF-8"@
    &&& v[0].canonical@ == "UTF-8"@
    &&& v[1].label@ == "UTF-8 BOM"@
    &&& v[1].canonical@ == "UTF-8 BOM"@
}

/// The supported encodings: UTF-8, with and without a byte-order mark.
pub fn get_available_encodings() -> (r: Encodings)
    ensures
        spec_utf8_encodings(r.preferred@),
        spec_utf8_encodings(r.all@),
{
    let mut preferred: Vec<Encoding> = Vec::new();
    preferred.push(
        Encoding { label: String::from_str("UTF-8"), canonical: String::from_str("UTF-8") },
    );
    preferred.push(
        Encoding { label: String::from_str("UTF-8 BOM"), canonical: String::from_str("UTF-8 BOM") },
    );
    let mut all: Vec<Encoding> = Vec::new();
    all.push(Encoding { label: String::from_str("UTF-8"), canonical: String::from_str("UTF-8") });
    all.push(
        Encoding { label: String::from_str("UTF-8 BOM"), canonical: String::from_str("UTF-8 BOM") },
    );
    Encodings { preferred, all }
}

/// The message for an encoding-subsystem error code: the code in hexadecimal,
/// zero-padded to six digits, behind a fixed prefix.
pub open spec fn spec_apperr_message(code: u32) -> Seq<char> {
    "ICU Error (Stub): 0x"@ + spec_hex_padded(code as int)
}

/// Hexadecimal digits of `code`, left-padded with zeros to six digits.
pub open spec fn spec_hex_padded(code: int) -> Seq<char> {
    let digits = spec_hex(code);
    if digits.len() >= 6 {
        digits
    } else {
        Seq::new((6 - digits.len()) as nat, |i: int| '0') + digits
    }
}

/// Formats an encoding-subsystem error code.
pub fn apperr_format(code: u32) -> (r: String)
    ensures
        r@ == spec_apperr_message(code),
{
    let mut digits: Vec<char> = Vec::new();
    push_hex(&mut digits, code);
    let mut out: Vec<char> = Vec::new();
    let prefix = "ICU Error (Stub): 0x";
    let n = prefix.unicode_len();
    let mut i: usize = 0;
    while i < n
        invariant
            i <= n,
            n == prefix@.len(),
            prefix@ == "ICU Error (Stub): 0x"@,
            out@ == prefix@.subrange(0, i as int),
        decreases n - i,
    {
        out.push(prefix.get_char(i));
        proof {
            assert(prefix@.subrange(0, i as int).push(prefix@[i as int]) =~= prefix@.subrange(
                0,
                i as int + 1,
            ));
        }
        i = i + 1;
    }
    proof {
        assert(out@ =~= "ICU Error (Stub): 0x"@);
    }
    let mut pad: usize = 0;
    let need: usize = if digits.len() >= 6 {
        0
    } else {
        6 - digits.len()
    };
    while pad < need
        invariant
            pad <= need,
            need == if digits@.len() >= 6 {
                0int
            } else {
                6 - digits@.len()
            },
            out@ == "ICU Error (Stub): 0x"@ + Seq::new(pad as nat, |i: int| '0'),
        decreases need - pad,
    {
        out.push('0');
        proof {
            assert(("ICU Error (Stub): 0x"@ + Seq::new(pad as nat, |i: int| '0')).push('0') =~= "ICU Error (Stub): 0x"@
                + Seq::new((pad + 1) as nat, |i: int| '0'));
        }
        pad = pad + 1;
    }
    let mut k: usize = 0;
    while k < digits.len()
        invariant
            k <= digits@.len(),
            out@ == "ICU Error (Stub): 0x"@ + Seq::new(need as nat, |i: int| '0')
                + digits@.subrange(0, k as int),
            need == if digits@.len() >= 6 {
                0int
            } else {
                6 - digits@.len()
            },
        decreases digits@.len() - k,
    {
        out.push(digits[k]);
        proof {
            assert(("ICU Error (Stub): 0x"@ + Seq::new(need as nat, |i: int| '0')
                + digits@.subrange(0, k as int)).push(digits@[k as int]) =~= "ICU Error (Stub): 0x"@
                + Seq::new(need as nat, |i: int| '0') + digits@.subrange(0, k as int + 1));
        }
        k = k + 1;
    }
    proof {
        assert(digits@ == spec_hex(code as int));
        assert(digits@.subrange(0, digits@.len() as int) =~= digits@);
        assert(out@ =~= spec_apperr_message(code));
    }
    chars_to_string(&out)
}

/// Initializes the text-encoding subsystem; nothing can fail in this native
/// build.
pub fn init() -> (r: Result<(), Error>)
    ensures
        r is Ok,
{
    Ok(())
}

/// Converts byte streams between two supported encodings. Since both
/// supported encodings carry UTF-8 bytes, conversion copies.
pub struct Converter {
    pub ready: bool,
}

/// Whether `s` names a supported encoding.
pub open spec fn spec_supported_encoding(s: Seq<char>) -> bool {
    s == "UTF-8"@ || s == "UTF-8 BOM"@
}

/// Whether two string slices hold the same characters.
fn str_eq(a: &str, b: &str) -> (r: bool)
    ensures
        r == (a@ == b@),
{
    let na = a.unicode_len();
    let nb = b.unicode_len();
    if na != nb {
        proof {
            assert(a@.len() != b@.len() ==> a@ != b@);
        }
        return false;
    }
    let mut i: usize = 0;
    while i < na
        invariant
            i <= na,
            na == a@.len(),
            a@.len() == b@.len(),
            forall|j: int| 0 <= j < i ==> a@[j] == b@[j],
        decreases na - i,
    {
        if a.get_char(i) != b.get_char(i) {
            return false;
        }
        i = i + 1;
    }
    proof {
        assert(a@ =~= b@);
    }
    true
}

impl Converter {
    /// A converter from `source_encoding` to `target_encoding`. Exactly the
    /// supported encodings are accepted; anything else is an encoding error.
    pub fn new(source_encoding: &str, target_encoding: &str) -> (r: Result<Converter, Error>)
        ensures
            r is Ok <==> (spec_supported_encoding(source_encoding@) && spec_supported_encoding(
                target_encoding@,
            )),
            r is Err ==> r->Err_0 == (Error { icu: true, code: 16 }),
    {
        let src_ok = str_eq(source_encoding, "UTF-8") || str_eq(source_encoding, "UTF-8 BOM");
        let tgt_ok = str_eq(target_encoding, "UTF-8") || str_eq(target_encoding, "UTF-8 BOM");
        if src_ok && tgt_ok {
            Ok(Converter { ready: true })
        } else {
            Err(Error::new_icu(16))
        }
    }

    /// Copies as much of `input` as fits over the front of `output`, returning
    /// how many bytes were read and written (always the same number, the
    /// shorter of the two lengths).
    pub fn convert(&mut self, input: &[u8], output: &mut Vec<u8>) -> (r: Result<
        (usize, usize),
        Error,
    >)
        ensures
            r is Ok,
            r->Ok_0.0 == r->Ok_0.1,
            r->Ok_0.0 == if input@.len() <= old(output)@.len() {
                input@.len() as int
            } else {
                old(output)@.len() as int
            },
            final(output)@.len() == old(output)@.len(),
            forall|i: int|
                0 <= i < old(output)@.len() ==> final(output)@[i] == if i < r->Ok_0.0 {
                    input@[i]
                } else {
                    old(output)@[i]
                },
    {
        let len = if input.len() <= output.len() {
            input.len()
        } else {
            output.len()
        };
        let mut i: usize = 0;
        while i < len
            invariant
                i <= len,
                len <= input@.len(),
                len <= output@.len(),
                output@.len() == old(output)@.len(),
                forall|j: int|
                    0 <= j < output@.len() ==> output@[j] == if j < i {
                        input@[j]
                    } else {
                        old(output)@[j]
                    },
            decreases len - i,
        {
            let b = input[i];
            output[i] = b;
            i = i + 1;
        }
        Ok((len, len))
    }
}

/// Ordinal lexicographic order of two byte strings.
pub open spec fn spec_lex_cmp(a: Seq<u8>, b: Seq<u8>) -> Ordering
    decreases a.len(),
{
    if a.len() == 0 && b.len() == 0 {
        Ordering::Equal
    } else if a.len() == 0 {
        Ordering::Less
    } else if b.len() == 0 {
        Ordering::Greater
    } else if a[0] < b[0] {
        Ordering::Less
    } else if a[0] > b[0] {
        Ordering::Greater
    } else {
        spec_lex_cmp(a.drop_first(), b.drop_first())
    }
}

/// Compares two byte strings ordinally (plain byte order, no collation).
pub fn compare_strings(a: &[u8], b: &[u8]) -> (r: Ordering)
    ensures
        r == spec_lex_cmp(a@, b@),
{
    let na = a.len();
    let nb = b.len();
    let mut i: usize = 0;
    proof {
        assert(a@.skip(0) =~= a@);
        assert(b@.skip(0) =~= b@);
    }
    while i < na && i < nb
        invariant
            i <= na,
            i <= nb,
            na == a@.len(),
            nb == b@.len(),
            spec_lex_cmp(a@.skip(i as int), b@.skip(i as int)) == spec_lex_cmp(a@, b@),
        decreases na - i,
    {
        let ca = a[i];
        let cb = b[i];
        proof {
            assert(a@.skip(i as int)[0] == a@[i as int]);
            assert(b@.skip(i as int)[0] == b@[i as int]);
            assert(a@.skip(i as int).drop_first() =~= a@.skip(i as int + 1));
            assert(b@.skip(i as int).drop_first() =~= b@.skip(i as int + 1));
        }
        if ca < cb {
            return Ordering::Less;
        }
        if ca > cb {
            return Ordering::Greater;
        }
        i = i + 1;
    }
    proof {
        assert(a@.skip(i as int).len() == a@.len() - i);
        assert(b@.skip(i as int).len() == b@.len() - i);
    }
    if na == nb {
        Ordering::Equal
    } else if na < nb {
        proof {
            assert(a@.skip(i as int).len() == 0);
            assert(b@.skip(i as int).len() > 0);
        }
        Ordering::Less
    } else {
        proof {
            assert(b@.skip(i as int).len() == 0);
            assert(a@.skip(i as int).len() > 0);
        }
        Ordering::Greater
    }
}

/// What `str::to_lowercase` returns for a given character sequence; the
/// folding depends on the characters alone.
pub uninterp spec fn lower_of(s: Seq<char>) -> Seq<char>;

/// Relies on `str::to_lowercase`: the lowercase form of the input, a function
/// of the input characters alone; an empty input folds to an empty string.
#[verifier::external_body]
fn to_lowercase(input: &str) -> (r: String)
    ensures
        r@ == lower_of(input@),
        input@.len() == 0 ==> r@.len() == 0,
{
    input.to_lowercase()
}

/// Case folding for case-insensitive search: the input folded to lowercase.
pub fn fold_case(input: &str) -> (r: String)
    ensures
        r@ == lower_of(input@),
        input@.len() == 0 ==> r@.len() == 0,
{
    to_lowercase(input)
}

} // verus!
