//! Content digests and the reference digest sets.
//!
//! A build variant of the target executable is recognised by the SHA-256
//! digest of the whole file.  The known digests come as line-delimited
//! hexadecimal text assets; parsing that text into byte digests is verified
//! here, while the digest itself and the hexadecimal codec are obtained from
//! outside crates through the trusted wrappers at the bottom of this file.

use sha2::Digest;
use vstd::prelude::*;
use vstd::string::StringSliceAdditionalSpecFns;

verus! {

/// Failure to parse a reference digest list: some non-empty line is not
/// valid hexadecimal.  Reference data is a build-time asset, so this is a
/// hard startup failure for the caller.
#[derive(Debug, Clone, Copy, PartialEq, Eq, Structural)]
pub enum HexError {
    MalformedLine,
}

/// The SHA-256 digest of a byte sequence, as computed by the `sha2` crate.
/// The digest is a function of the input bytes alone.
pub uninterp spec fn sha256_of(data: Seq<u8>) -> Seq<u8>;

/// True of the bytes that `const_hex::decode` accepts as hexadecimal
/// digits.
pub open spec fn is_hex_digit(b: u8) -> bool {
    (48 <= b && b <= 57) || (65 <= b && b <= 70) || (97 <= b && b <= 102)
}

/// The value of one hexadecimal digit.
pub open spec fn hex_val(b: u8) -> u8
    recommends
        is_hex_digit(b),
{
    if 48 <= b && b <= 57 {
        (b - 48) as u8
    } else if 65 <= b && b <= 70 {
        (b - 55) as u8
    } else {
        (b - 87) as u8
    }
}

/// Drops a leading "0x" or "0X", as `const_hex::decode` does.
pub open spec fn strip_hex_prefix(s: Seq<u8>) -> Seq<u8> {
    if s.len() >= 2 && s[0] == 48 && (s[1] == 120 || s[1] == 88) {
        s.skip(2)
    } else {
        s
    }
}

/// True of the byte strings that `const_hex::decode` accepts: an even
/// number of bytes which, after the optional "0x" prefix, are all
/// hexadecimal digits.
pub open spec fn hex_ok(s: Seq<u8>) -> bool {
    &&& s.len() % 2 == 0
    &&& forall|k: int|
        0 <= k < strip_hex_prefix(s).len() ==> is_hex_digit(#[trigger] strip_hex_prefix(s)[k])
}

/// The bytes a hexadecimal string decodes to: two digits per byte, high
/// nibble first.
pub open spec fn hex_bytes(s: Seq<u8>) -> Seq<u8>
    recommends
        hex_ok(s),
{
    let t = strip_hex_prefix(s);
    Seq::new((t.len() / 2) as nat, |k: int| (16 * hex_val(t[2 * k]) + hex_val(t[2 * k + 1])) as u8)
}

/// The lowercase hexadecimal digit for a nibble.
pub open spec fn hex_digit_char(n: u8) -> char
    recommends
        n < 16,
{
    if n < 10 {
        ((48 + n) as u8) as char
    } else {
        ((87 + n) as u8) as char
    }
}

/// The lowercase hexadecimal encoding of a byte sequence: exactly two
/// digits per byte, high nibble first, no prefix.
pub open spec fn hex_str(b: Seq<u8>) -> Seq<char> {
    Seq::new((2 * b.len()) as nat, |k: int|
        if k % 2 == 0 {
            hex_digit_char(b[k / 2] >> 4)
        } else {
            hex_digit_char(b[k / 2] & 15)
        }
    )
}

/// Index of the first line feed in `s`, or `s.len()` if there is none.
pub open spec fn find_nl(s: Seq<u8>) -> int
    decreases s.len(),
{
    if s.len() == 0 {
        0
    } else if s[0] == 10 {
        0
    } else {
        1 + find_nl(s.skip(1))
    }
}

pub proof fn lemma_find_nl_bounds(s: Seq<u8>)
    ensures
        0 <= find_nl(s) <= s.len(),
        forall|k: int| 0 <= k < find_nl(s) ==> s[k] != 10,
        find_nl(s) < s.len() ==> s[find_nl(s)] == 10,
    decreases s.len(),
{
    if s.len() == 0 {
    } else if s[0] == 10 {
    } else {
        lemma_find_nl_bounds(s.skip(1));
        assert forall|k: int| 0 <= k < find_nl(s) implies s[k] != 10 by {
            if k > 0 {
                assert(s.skip(1)[k - 1] == s[k]);
            }
        }
        if find_nl(s) < s.len() {
            assert(s.skip(1)[find_nl(s) - 1] == s[find_nl(s)]);
        }
    }
}

/// Removes one carriage return from the end of a line, as `str::lines`
/// does for lines terminated by a line feed.
pub open spec fn strip_cr(line: Seq<u8>) -> Seq<u8> {
    if line.len() > 0 && line.last() == 13 {
        line.drop_last()
    } else {
        line
    }
}

/// The digests listed in a line-delimited hexadecimal text, one digest per
/// non-empty line, or `None` if some non-empty line is not valid
/// hexadecimal.  A final line may end without a line feed; a line feed may
/// be preceded by a carriage return.
pub open spec fn digests_of(t: Seq<u8>) -> Option<Seq<Seq<u8>>>
    decreases t.len(),
    via digests_of_decreases
{
    if t.len() == 0 {
        Some(Seq::empty())
    } else {
        let n = find_nl(t);
        let line = if n < t.len() {
            strip_cr(t.take(n))
        } else {
            t.take(n)
        };
        let rest = if n < t.len() {
            t.skip(n + 1)
        } else {
            t.skip(n)
        };
        let tail = digests_of(rest);
        if line.len() == 0 {
            tail
        } else if hex_ok(line) {
            match tail {
                Some(ds) => Some(seq![hex_bytes(line)] + ds),
                None => None,
            }
        } else {
            None
        }
    }
}

#[via_fn]
proof fn digests_of_decreases(t: Seq<u8>) {
    if t.len() > 0 {
        lemma_find_nl_bounds(t);
    }
}

/// Prepends already-parsed digests to the outcome of parsing the rest.
pub open spec fn opt_prepend(p: Seq<Seq<u8>>, r: Option<Seq<Seq<u8>>>) -> Option<Seq<Seq<u8>>> {
    match r {
        Some(ds) => Some(p + ds),
        None => None,
    }
}

/// True if `h` is one of the digests in `ds`.
pub open spec fn contains_digest(ds: Seq<Seq<u8>>, h: Seq<u8>) -> bool {
    exists|k: int| 0 <= k < ds.len() && ds[k] == h
}

fn bytes_eq(a: &Vec<u8>, b: &Vec<u8>) -> (r: bool)
    ensures
        r == (a@ == b@),
{
    if a.len() != b.len() {
        return false;
    }
    let mut k: usize = 0;
    while k < a.len()
        invariant
            k <= a@.len(),
            a@.len() == b@.len(),
            forall|m: int| 0 <= m < k ==> a@[m] == b@[m],
        decreases a@.len() - k,
    {
        if a[k] != b[k] {
            return false;
        }
        k += 1;
    }
    proof {
        assert(a@ =~= b@);
    }
    true
}

/// Membership of a digest in a reference list.
pub fn list_contains(ds: &Vec<Vec<u8>>, h: &Vec<u8>) -> (r: bool)
    ensures
        r == contains_digest(ds.deep_view(), h@),
{
    let mut k: usize = 0;
    while k < ds.len()
        invariant
            k <= ds@.len(),
            forall|m: int| 0 <= m < k ==> ds@[m]@ != h@,
        decreases ds@.len() - k,
    {
        if bytes_eq(&ds[k], h) {
            proof {
                assert(ds.deep_view()[k as int] =~= ds@[k as int]@);
            }
            return true;
        }
        k += 1;
    }
    proof {
        assert forall|m: int| 0 <= m < ds.deep_view().len() implies ds.deep_view()[m] != h@ by {
            assert(ds.deep_view()[m] =~= ds@[m]@);
        }
    }
    false
}

fn vec_subrange(v: &Vec<u8>, a: usize, b: usize) -> (r: Vec<u8>)
    requires
        a <= b <= v@.len(),
    ensures
        r@ == v@.subrange(a as int, b as int),
{
    let mut r: Vec<u8> = Vec::new();
    let mut k: usize = a;
    while k < b
        invariant
            a <= k <= b <= v@.len(),
            r@ == v@.subrange(a as int, k as int),
        decreases b - k,
    {
        r.push(v[k]);
        proof {
            assert(r@ =~= v@.subrange(a as int, k + 1 as int));
        }
        k += 1;
    }
    r
}

/// Parses a reference digest list: one hexadecimal digest per non-empty
/// line, blank lines ignored.  Fails if any non-empty line is not valid
/// hexadecimal.
pub fn get_hash_set_from_str(hash_str: &str) -> (r: Result<Vec<Vec<u8>>, HexError>)
    ensures
        (digests_of(hash_str.spec_bytes()) matches Some(ds) ==> (r matches Ok(v)
            && v.deep_view() == ds)),
        digests_of(hash_str.spec_bytes()) is None ==> r is Err,
{
    let ghost t = hash_str.spec_bytes();
    let bytes: &[u8] = hash_str.as_bytes();
    let v: Vec<u8> = vstd::slice::slice_to_vec(bytes);
    let n: usize = v.len();
    let mut out: Vec<Vec<u8>> = Vec::new();
    let mut i: usize = 0;
    proof {
        assert(t.skip(0) =~= t);
        assert(out.deep_view() =~~= Seq::<Seq<u8>>::empty());
        match digests_of(t) {
            Some(ds) => {
                assert(Seq::<Seq<u8>>::empty() + ds =~~= ds);
            },
            None => {},
        }
    }
    while i < n
        invariant
            t == hash_str.spec_bytes(),
            v@ == t,
            n == t.len(),
            i <= n,
            opt_prepend(out.deep_view(), digests_of(t.skip(i as int))) == digests_of(t),
        decreases n - i,
    {
        let ghost suffix = t.skip(i as int);
        // find the end of the current line
        let mut j: usize = i;
        while j < n && v[j] != 10
            invariant
                i <= j <= n,
                n == v@.len(),
                forall|k: int| i <= k < j ==> v@[k] != 10,
            decreases n - j,
        {
            j += 1;
        }
        proof {
            lemma_find_nl_bounds(suffix);
            assert(suffix.len() == n - i);
            assert forall|k: int| 0 <= k < j - i implies suffix[k] != 10 by {
                assert(suffix[k] == t[i + k]);
            }
            if find_nl(suffix) < j - i {
                assert(suffix[find_nl(suffix)] == t[i + find_nl(suffix)]);
                assert(false);
            }
            if find_nl(suffix) > j - i {
                if j < n {
                    assert(suffix[j - i] == t[j as int]);
                    assert(false);
                } else {
                    assert(false);
                }
            }
            assert(find_nl(suffix) == j - i);
        }
        // strip one trailing carriage return from a line-feed-terminated line
        let stripped: bool = j < n && j > i && v[j - 1] == 13;
        let end: usize = if stripped {
            j - 1
        } else {
            j
        };
        let line: Vec<u8> = vec_subrange(&v, i, end);
        let ghost spec_line = if find_nl(suffix) < suffix.len() {
            strip_cr(suffix.take(find_nl(suffix)))
        } else {
            suffix.take(find_nl(suffix))
        };
        proof {
            assert(suffix.take(j - i) =~= t.subrange(i as int, j as int));
            if j < n {
                if j > i && t[j - 1] == 13 {
                    assert(suffix.take(j - i).last() == t[j - 1]);
                    assert(spec_line =~= t.subrange(i as int, j - 1));
                } else {
                    assert(spec_line =~= t.subrange(i as int, j as int));
                }
            } else {
                assert(spec_line =~= t.subrange(i as int, j as int));
            }
            assert(line@ == spec_line);
        }
        let ghost rest = if find_nl(suffix) < suffix.len() {
            suffix.skip(find_nl(suffix) + 1)
        } else {
            suffix.skip(find_nl(suffix))
        };
        let next: usize = if j < n {
            j + 1
        } else {
            j
        };
        proof {
            assert(rest =~= t.skip(next as int));
        }
        if line.len() == 0 {
            proof {
                assert(digests_of(suffix) == digests_of(rest));
            }
        } else {
            match hex_decode(&line) {
                Ok(dig) => {
                    proof {
                        assert(hex_ok(spec_line));
                        assert(digests_of(suffix) == opt_prepend(
                            seq![hex_bytes(spec_line)],
                            digests_of(rest),
                        ));
                    }
                    let ghost old_out = out.deep_view();
                    proof {
                        assert(dig.deep_view() =~= dig@);
                    }
                    out.push(dig);
                    proof {
                        assert(out.deep_view() =~~= old_out.push(hex_bytes(spec_line)));
                        match digests_of(rest) {
                            Some(ds) => {
                                assert(old_out.push(hex_bytes(spec_line)) + ds =~~= old_out
                                    + (seq![hex_bytes(spec_line)] + ds));
                            },
                            None => {},
                        }
                    }
                },
                Err(_) => {
                    proof {
                        assert(!hex_ok(spec_line));
                        assert(digests_of(suffix) is None);
                        assert(digests_of(t) is None);
                        assert(digests_of(hash_str.spec_bytes()) is None);
                    }
                    return Err(HexError::MalformedLine);
                },
            }
        }
        i = next;
    }
    proof {
        assert(t.skip(i as int) =~= Seq::<u8>::empty());
        assert(digests_of(t.skip(i as int)) == Some(Seq::<Seq<u8>>::empty()));
        match digests_of(t) {
            Some(ds) => {
                assert(out.deep_view() + Seq::<Seq<u8>>::empty() =~~= out.deep_view());
            },
            None => {},
        }
    }
    Ok(out)
}

/// The three reference digest sets, one per known distributable variant,
/// built once at startup and read-only afterwards.
pub struct ReferenceSets {
    pub steam: Vec<Vec<u8>>,
    pub steamless: Vec<Vec<u8>>,
    pub gog: Vec<Vec<u8>>,
}

impl ReferenceSets {
    /// Parses the three bundled digest lists.  Any malformed line is a hard
    /// failure.
    pub fn from_texts(steam_text: &str, steamless_text: &str, gog_text: &str) -> (r: Result<
        ReferenceSets,
        HexError,
    >)
        ensures
            (r matches Ok(sets) ==> ({
                &&& digests_of(steam_text.spec_bytes()) == Some(sets.steam.deep_view())
                &&& digests_of(steamless_text.spec_bytes()) == Some(sets.steamless.deep_view())
                &&& digests_of(gog_text.spec_bytes()) == Some(sets.gog.deep_view())
            })),
            r is Err ==> (digests_of(steam_text.spec_bytes()) is None || digests_of(
                steamless_text.spec_bytes(),
            ) is None || digests_of(gog_text.spec_bytes()) is None),
    {
        let steam = match get_hash_set_from_str(steam_text) {
            Ok(v) => v,
            Err(e) => { return Err(e) },
        };
        let steamless = match get_hash_set_from_str(steamless_text) {
            Ok(v) => v,
            Err(e) => { return Err(e) },
        };
        let gog = match get_hash_set_from_str(gog_text) {
            Ok(v) => v,
            Err(e) => { return Err(e) },
        };
        Ok(ReferenceSets { steam, steamless, gog })
    }
}

/// Computes the SHA-256 digest of a byte image.
///
/// Relies on `sha2::Sha256` (via the `Digest` trait): the digest is 32
/// bytes long and depends on the input bytes alone.
#[verifier::external_body]
pub(crate) fn sha256(data: &Vec<u8>) -> (r: Vec<u8>)
    ensures
        r@ == sha256_of(data@),
        r@.len() == 32,
{
    let mut hasher = sha2::Sha256::new();
    hasher.update(data.as_slice());
    hasher.finalize().to_vec()
}

/// Decodes a hexadecimal byte string.
///
/// Relies on `const_hex::decode`: it fails on odd-length input, strips an
/// optional "0x"/"0X" prefix, then requires hexadecimal digits only (either
/// case) and yields one byte per digit pair, high nibble first.
#[verifier::external_body]
fn hex_decode(line: &Vec<u8>) -> (r: Result<Vec<u8>, HexError>)
    ensures
        r is Ok <==> hex_ok(line@),
        r matches Ok(v) ==> v@ == hex_bytes(line@),
{
    const_hex::decode(line.as_slice()).map_err(|_| HexError::MalformedLine)
}

/// Encodes bytes as lowercase hexadecimal.
///
/// Relies on `const_hex::encode`: two lowercase digits per byte, high
/// nibble first, no prefix.
#[verifier::external_body]
pub(crate) fn hex_encode(data: &Vec<u8>) -> (r: String)
    ensures
        r@ == hex_str(data@),
{
    const_hex::encode(data.as_slice())
}

} // verus!
