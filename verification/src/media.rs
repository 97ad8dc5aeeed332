//! Media fingerprinting: a content hash and a format tag derived from raw
//! image bytes. Classification inspects the leading bytes against a fixed
//! table of binary signatures; unmatched or too-short input is tagged as
//! generic binary rather than rejected.

use vstd::prelude::*;
use sha2::Digest;
use crate::text::string_push;

verus! {

/// Reference to an image held by the fingerprinter: a content hash together
/// with the content-derived file name.
pub enum ImageRef {
    Local { hash: String, original_path: String },
}

/// The SHA-256 digest of a byte sequence.
pub uninterp spec fn sha256_of(data: Seq<u8>) -> Seq<u8>;

/// Relies on sha2::Sha256 (the Digest::digest entry point): the SHA-256
/// digest of the input, a function of the bytes alone, 32 bytes long.
#[verifier::external_body]
fn sha256_digest(data: &[u8]) -> (r: Vec<u8>)
    ensures
        r@ == sha256_of(data@),
        r@.len() == 32,
{
    sha2::Sha256::digest(data).to_vec()
}

/// The lower-case hex digit for a value below 16.
pub open spec fn hex_char(n: int) -> char {
    if n == 0 {
        '0'
    } else if n == 1 {
        '1'
    } else if n == 2 {
        '2'
    } else if n == 3 {
        '3'
    } else if n == 4 {
        '4'
    } else if n == 5 {
        '5'
    } else if n == 6 {
        '6'
    } else if n == 7 {
        '7'
    } else if n == 8 {
        '8'
    } else if n == 9 {
        '9'
    } else if n == 10 {
        'a'
    } else if n == 11 {
        'b'
    } else if n == 12 {
        'c'
    } else if n == 13 {
        'd'
    } else if n == 14 {
        'e'
    } else {
        'f'
    }
}

/// Lower-case hex encoding of a byte sequence, two digits per byte.
pub open spec fn spec_hex(data: Seq<u8>) -> Seq<char>
    decreases data.len(),
{
    if data.len() == 0 {
        Seq::empty()
    } else {
        spec_hex(data.drop_last()).push(hex_char((data.last() >> 4) as int)).push(
            hex_char((data.last() & 0xf) as int),
        )
    }
}

fn nibble_char(n: u8) -> (c: char)
    requires
        n < 16,
    ensures
        c == hex_char(n as int),
{
    if n == 0 {
        '0'
    } else if n == 1 {
        '1'
    } else if n == 2 {
        '2'
    } else if n == 3 {
        '3'
    } else if n == 4 {
        '4'
    } else if n == 5 {
        '5'
    } else if n == 6 {
        '6'
    } else if n == 7 {
        '7'
    } else if n == 8 {
        '8'
    } else if n == 9 {
        '9'
    } else if n == 10 {
        'a'
    } else if n == 11 {
        'b'
    } else if n == 12 {
        'c'
    } else if n == 13 {
        'd'
    } else if n == 14 {
        'e'
    } else {
        'f'
    }
}

/// Lower-case hex encoding of `data`.
pub fn to_hex(data: &Vec<u8>) -> (r: String)
    ensures
        r@ == spec_hex(data@),
{
    let mut r = String::new();
    let n = data.len();
    for i in 0..n
        invariant
            n == data@.len(),
            r@ == spec_hex(data@.take(i as int)),
    {
        let b = data[i];
        let hi = b >> 4;
        let lo = b & 0xf;
        proof {
            assert(hi < 16 && lo < 16) by (bit_vector)
                requires
                    hi == b >> 4 && lo == b & 0xf,
            ;
        }
        string_push(&mut r, nibble_char(hi));
        string_push(&mut r, nibble_char(lo));
        proof {
            let t = data@.take(i + 1);
            assert(t.drop_last() =~= data@.take(i as int));
            assert(t.last() == data@[i as int]);
        }
    }
    proof {
        assert(data@.take(n as int) =~= data@);
    }
    r
}

/// The content hash of image bytes, as lower-case hex.
pub open spec fn spec_image_hash(data: Seq<u8>) -> Seq<char> {
    spec_hex(sha256_of(data))
}

/// The content-derived file name of image bytes: hash, a dot, and the
/// detected extension.
pub open spec fn spec_image_name(data: Seq<u8>) -> Seq<char> {
    spec_image_hash(data) + "."@ + spec_extension(data)
}

/// Fingerprint raw image bytes: derive the content hash and a format tag.
/// A pure function of the bytes; never fails, never touches storage.
pub fn process_image(img_data: &[u8]) -> (r: ImageRef)
    ensures
        (r matches ImageRef::Local { hash, original_path } && hash@ == spec_image_hash(
            img_data@,
        ) && original_path@ == spec_image_name(img_data@)),
{
    let digest = sha256_digest(img_data);
    let hash_hex = to_hex(&digest);
    let ext = detect_extension(img_data);
    let original_path = hash_hex.clone().concat(".").concat(ext);
    ImageRef::Local { hash: hash_hex, original_path }
}

/// Fingerprinting is deterministic: any two results that the fingerprint
/// contract admits for the same bytes carry the same hash and the same
/// derived name.
pub proof fn lemma_fingerprint_idempotent(a: ImageRef, b: ImageRef, data: Seq<u8>)
    requires
        a matches ImageRef::Local { hash, original_path } && hash@ == spec_image_hash(data)
            && original_path@ == spec_image_name(data),
        b matches ImageRef::Local { hash, original_path } && hash@ == spec_image_hash(data)
            && original_path@ == spec_image_name(data),
    ensures
        (a matches ImageRef::Local { hash: ha, original_path: pa } && b matches ImageRef::Local {
            hash: hb,
            original_path: pb,
        } && ha@ == hb@ && pa@ == pb@),
{
}

/// The format tag implied by the leading bytes of `data`: a fixed signature
/// table for PNG, JPEG, GIF, WEBP (RIFF) and BMP; anything else, or fewer
/// than eight bytes, is generic binary.
pub open spec fn spec_extension(data: Seq<u8>) -> Seq<char> {
    if data.len() < 8 {
        "bin"@
    } else if data[0] == 0x89 && data[1] == 0x50 && data[2] == 0x4e && data[3] == 0x47
        && data[4] == 0x0d && data[5] == 0x0a && data[6] == 0x1a && data[7] == 0x0a {
        "png"@
    } else if data[0] == 0xff && data[1] == 0xd8 && data[2] == 0xff {
        "jpg"@
    } else if data[0] == 0x47 && data[1] == 0x49 && data[2] == 0x46 && data[3] == 0x38 {
        "gif"@
    } else if data[0] == 0x52 && data[1] == 0x49 && data[2] == 0x46 && data[3] == 0x46 {
        "webp"@
    } else if data[0] == 0x42 && data[1] == 0x4d {
        "bmp"@
    } else {
        "bin"@
    }
}

/// Detect a file extension from the magic bytes at the head of `data`.
/// Never fails: an unrecognized signature yields the generic `"bin"` tag.
pub fn detect_extension(data: &[u8]) -> (r: &'static str)
    ensures
        r@ == spec_extension(data@),
{
    if data.len() < 8 {
        return "bin";
    }
    if data[0] == 0x89 && data[1] == 0x50 && data[2] == 0x4e && data[3] == 0x47
        && data[4] == 0x0d && data[5] == 0x0a && data[6] == 0x1a && data[7] == 0x0a {
        "png"
    } else if data[0] == 0xff && data[1] == 0xd8 && data[2] == 0xff {
        "jpg"
    } else if data[0] == 0x47 && data[1] == 0x49 && data[2] == 0x46 && data[3] == 0x38 {
        "gif"
    } else if data[0] == 0x52 && data[1] == 0x49 && data[2] == 0x46 && data[3] == 0x46 {
        "webp"
    } else if data[0] == 0x42 && data[1] == 0x4d {
        "bmp"
    } else {
        "bin"
    }
}

/// The `/`-separated segments of a path, split as a plain character scan:
/// one more segment than there are separators.
pub open spec fn spec_segments(s: Seq<char>) -> Seq<Seq<char>>
    decreases s.len(),
{
    if s.len() == 0 {
        seq![Seq::<char>::empty()]
    } else if s.last() == '/' {
        spec_segments(s.drop_last()).push(Seq::<char>::empty())
    } else {
        let segs = spec_segments(s.drop_last());
        segs.update(segs.len() - 1, segs.last().push(s.last()))
    }
}

/// A segment that survives normalization: neither empty nor the current
/// directory marker `.`.
pub open spec fn keeps_segment(g: Seq<char>) -> bool {
    g.len() > 0 && !(g.len() == 1 && g[0] == '.')
}

/// The segments kept by normalization, in order.
pub open spec fn spec_kept_segments(segs: Seq<Seq<char>>) -> Seq<Seq<char>>
    decreases segs.len(),
{
    if segs.len() == 0 {
        Seq::empty()
    } else if keeps_segment(segs.last()) {
        spec_kept_segments(segs.drop_last()).push(segs.last())
    } else {
        spec_kept_segments(segs.drop_last())
    }
}

/// Segments joined with a single `/` between neighbours.
pub open spec fn spec_join(segs: Seq<Seq<char>>) -> Seq<char>
    decreases segs.len(),
{
    if segs.len() == 0 {
        Seq::empty()
    } else if segs.len() == 1 {
        segs[0]
    } else {
        spec_join(segs.drop_last()) + seq!['/'] + segs.last()
    }
}

/// The normalized form of a path: its non-empty, non-`.` segments joined
/// with single separators.
pub open spec fn spec_normalize_path(s: Seq<char>) -> Seq<char> {
    spec_join(spec_kept_segments(spec_segments(s)))
}

proof fn lemma_segments_nonempty(s: Seq<char>)
    ensures
        spec_segments(s).len() > 0,
    decreases s.len(),
{
    if s.len() > 0 {
        lemma_segments_nonempty(s.drop_last());
    }
}

fn split_segments(s: &str) -> (r: Vec<String>)
    ensures
        r@.map_values(|g: String| g@) == spec_segments(s@),
{
    let n = s.unicode_len();
    let mut done: Vec<String> = Vec::new();
    let mut cur: String = String::new();
    for i in 0..n
        invariant
            n == s@.len(),
            spec_segments(s@.take(i as int)) == done@.map_values(|g: String| g@).push(cur@),
    {
        let c = s.get_char(i);
        proof {
            let pre = s@.take(i as int);
            assert(s@.take(i + 1).drop_last() =~= pre);
            assert(s@.take(i + 1).last() == s@[i as int]);
            lemma_segments_nonempty(pre);
        }
        if c == '/' {
            done.push(cur);
            cur = String::new();
            proof {
                assert(done@.map_values(|g: String| g@).push(cur@) =~= spec_segments(
                    s@.take(i + 1),
                ));
            }
        } else {
            string_push(&mut cur, c);
            proof {
                let m = done@.map_values(|g: String| g@);
                assert(m.push(cur@) =~= spec_segments(s@.take(i as int)).update(
                    spec_segments(s@.take(i as int)).len() - 1,
                    spec_segments(s@.take(i as int)).last().push(s@[i as int]),
                ));
            }
        }
    }
    proof {
        assert(s@.take(n as int) =~= s@);
    }
    done.push(cur);
    done
}

fn keeps_segment_exec(g: &str) -> (r: bool)
    ensures
        r == keeps_segment(g@),
{
    let n = g.unicode_len();
    if n == 0 {
        false
    } else if n == 1 && g.get_char(0) == '.' {
        false
    } else {
        true
    }
}

/// Normalize a path: collapse repeated separators, drop current-directory
/// markers, and join the remaining segments with `/`.
pub fn normalize_path(path: &str) -> (r: String)
    ensures
        r@ == spec_normalize_path(path@),
{
    let segs = split_segments(path);
    let mut kept: Vec<String> = Vec::new();
    let n = segs.len();
    for i in 0..n
        invariant
            n == segs@.len(),
            segs@.map_values(|g: String| g@) == spec_segments(path@),
            kept@.map_values(|g: String| g@) == spec_kept_segments(
                spec_segments(path@).take(i as int),
            ),
    {
        proof {
            let all = spec_segments(path@);
            assert(all.take(i + 1).drop_last() =~= all.take(i as int));
            assert(all.take(i + 1).last() == all[i as int]);
            assert(segs@.map_values(|g: String| g@)[i as int] == segs@[i as int]@);
        }
        if keeps_segment_exec(segs[i].as_str()) {
            let g = segs[i].clone();
            kept.push(g);
            proof {
                assert(kept@.map_values(|g: String| g@) =~= spec_kept_segments(
                    spec_segments(path@).take(i as int),
                ).push(segs@[i as int]@));
            }
        }
    }
    proof {
        assert(spec_segments(path@).take(n as int) =~= spec_segments(path@));
    }
    let mut out = String::new();
    let kn = kept.len();
    for i in 0..kn
        invariant
            kn == kept@.len(),
            kept@.map_values(|g: String| g@) == spec_kept_segments(spec_segments(path@)),
            out@ == spec_join(kept@.map_values(|g: String| g@).take(i as int)),
    {
        proof {
            let ks = kept@.map_values(|g: String| g@);
            assert(ks.take(i + 1).drop_last() =~= ks.take(i as int));
            assert(ks.take(i + 1).last() == ks[i as int]);
            assert(ks[i as int] == kept@[i as int]@);
        }
        if i > 0 {
            string_push(&mut out, '/');
        }
        out.append(kept[i].as_str());
        proof {
            let ks = kept@.map_values(|g: String| g@);
            if i == 0 {
                assert(out@ =~= spec_join(ks.take(1)));
            } else {
                assert(out@ =~= spec_join(ks.take(i + 1)));
            }
        }
    }
    proof {
        let ks = kept@.map_values(|g: String| g@);
        assert(ks.take(kn as int) =~= ks);
    }
    out
}

} // verus!
