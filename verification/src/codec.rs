use vstd::prelude::*;
use crate::domain::{
    entry_wf, EntryView, MetadataView, PasswordEntry, EntryName, Password,
};
use vstd::utf8::{valid_utf8, decode_utf8, encode_utf8};
use vstd::string::StrSliceExecFns;

verus! {

// The catalogue is persisted inside the vault ciphertext in a small
// self-contained binary form: unsigned 64-bit little-endian lengths and
// counts, UTF-8 text, and one tag byte for optional fields. The parse
// functions below are the definition of the format; the serializer is
// proved to produce bytes that parse back to the same catalogue.
pub open spec fn le_byte(x: u64, k: u64) -> u8 {
    ((x >> (8 * k)) & 0xff) as u8
}

pub open spec fn le8(x: u64) -> Seq<u8> {
    seq![
        le_byte(x, 0),
        le_byte(x, 1),
        le_byte(x, 2),
        le_byte(x, 3),
        le_byte(x, 4),
        le_byte(x, 5),
        le_byte(x, 6),
        le_byte(x, 7),
    ]
}

pub open spec fn rd8(b: Seq<u8>) -> u64
    recommends
        b.len() == 8,
{
    ((b[0] as u64) | ((b[1] as u64) << 8) | ((b[2] as u64) << 16) | ((b[3] as u64) << 24) | (
    (b[4] as u64) << 32) | ((b[5] as u64) << 40) | ((b[6] as u64) << 48) | ((b[7] as u64) << 56))
}

proof fn lemma_rd8_le8(x: u64)
    ensures
        rd8(le8(x)) == x,
{
    assert(((((x >> 0) & 0xff) as u8 as u64) | ((((x >> 8) & 0xff) as u8 as u64) << 8) | ((((x
        >> 16) & 0xff) as u8 as u64) << 16) | ((((x >> 24) & 0xff) as u8 as u64) << 24) | ((((x
        >> 32) & 0xff) as u8 as u64) << 32) | ((((x >> 40) & 0xff) as u8 as u64) << 40) | ((((x
        >> 48) & 0xff) as u8 as u64) << 48) | ((((x >> 56) & 0xff) as u8 as u64) << 56)) == x)
        by (bit_vector);
}

// ---------------------------------------------------------------------
// Parsing, as specification: each function consumes from position `i` and
// yields the parsed value with the position after it, or nothing when the
// bytes do not fit the format.
pub open spec fn p_u64(b: Seq<u8>, i: int) -> Option<(u64, int)> {
    if 0 <= i && i + 8 <= b.len() {
        Some((rd8(b.subrange(i, i + 8)), i + 8))
    } else {
        None
    }
}

pub open spec fn p_bytes(b: Seq<u8>, i: int) -> Option<(Seq<u8>, int)> {
    match p_u64(b, i) {
        Some((n, j)) => if n as int <= b.len() - j {
            Some((b.subrange(j, j + n as int), j + n as int))
        } else {
            None
        },
        None => None,
    }
}

pub open spec fn p_str(b: Seq<u8>, i: int) -> Option<(Seq<char>, int)> {
    match p_bytes(b, i) {
        Some((bs, j)) => if valid_utf8(bs) {
            Some((decode_utf8(bs), j))
        } else {
            None
        },
        None => None,
    }
}

pub open spec fn p_optstr(b: Seq<u8>, i: int) -> Option<(Option<Seq<char>>, int)> {
    if !(0 <= i && i < b.len()) {
        None
    } else if b[i] == 0 {
        Some((None, i + 1))
    } else if b[i] == 1 {
        match p_str(b, i + 1) {
            Some((s, j)) => Some((Some(s), j)),
            None => None,
        }
    } else {
        None
    }
}

pub open spec fn p_strseq(b: Seq<u8>, i: int, n: nat) -> Option<(Seq<Seq<char>>, int)>
    decreases n,
{
    if n == 0 {
        Some((Seq::empty(), i))
    } else {
        match p_str(b, i) {
            Some((s, j)) => match p_strseq(b, j, (n - 1) as nat) {
                Some((ss, k)) => Some((seq![s] + ss, k)),
                None => None,
            },
            None => None,
        }
    }
}

pub open spec fn p_entry(b: Seq<u8>, i: int) -> Option<(EntryView, int)> {
    match p_str(b, i) {
        None => None,
        Some((name, i1)) => match p_str(b, i1) {
            None => None,
            Some((secret, i2)) => match p_u64(b, i2) {
                None => None,
                Some((created, i3)) => match p_u64(b, i3) {
                    None => None,
                    Some((modified, i4)) => match p_optstr(b, i4) {
                        None => None,
                        Some((url, i5)) => match p_optstr(b, i5) {
                            None => None,
                            Some((username, i6)) => match p_optstr(b, i6) {
                                None => None,
                                Some((notes, i7)) => match p_u64(b, i7) {
                                    None => None,
                                    Some((ntags, i8)) => match p_strseq(b, i8, ntags as nat) {
                                        None => None,
                                        Some((tags, i9)) => {
                                            let e = EntryView {
                                                name,
                                                secret,
                                                created_at: created,
                                                modified_at: modified,
                                                metadata: MetadataView { url, username, notes, tags },
                                            };
                                            if entry_wf(e) {
                                                Some((e, i9))
                                            } else {
                                                None
                                            }
                                        },
                                    },
                                },
                            },
                        },
                    },
                },
            },
        },
    }
}

pub open spec fn p_entries(b: Seq<u8>, i: int, n: nat) -> Option<(Seq<EntryView>, int)>
    decreases n,
{
    if n == 0 {
        Some((Seq::empty(), i))
    } else {
        match p_entry(b, i) {
            Some((e, j)) => match p_entries(b, j, (n - 1) as nat) {
                Some((es, k)) => Some((seq![e] + es, k)),
                None => None,
            },
            None => None,
        }
    }
}

pub open spec fn unique_names(es: Seq<EntryView>) -> bool {
    forall|x: int, y: int| 0 <= x < y < es.len() ==> es[x].name != es[y].name
}

/// What a byte string means as a catalogue: an entry count, that many
/// entries, no trailing bytes, and no repeated name.
pub open spec fn parse_catalogue_spec(b: Seq<u8>) -> Option<Seq<EntryView>> {
    match p_u64(b, 0) {
        Some((n, j)) => match p_entries(b, j, n as nat) {
            Some((es, k)) => if k == b.len() && unique_names(es) {
                Some(es)
            } else {
                None
            },
            None => None,
        },
        None => None,
    }
}

// ---------------------------------------------------------------------
// Extension: parsing looks only at the bytes it consumes, so appending
// bytes to the buffer never changes an already successful parse.
proof fn lemma_p_u64_ext(b: Seq<u8>, ext: Seq<u8>, i: int)
    requires
        p_u64(b, i) is Some,
    ensures
        p_u64(b + ext, i) == p_u64(b, i),
{
    assert((b + ext).subrange(i, i + 8) =~= b.subrange(i, i + 8));
}

proof fn lemma_p_bytes_ext(b: Seq<u8>, ext: Seq<u8>, i: int)
    requires
        p_bytes(b, i) is Some,
    ensures
        p_bytes(b + ext, i) == p_bytes(b, i),
{
    lemma_p_u64_ext(b, ext, i);
    let (n, j) = p_u64(b, i)->Some_0;
    assert((b + ext).subrange(j, j + n as int) =~= b.subrange(j, j + n as int));
}

proof fn lemma_p_str_ext(b: Seq<u8>, ext: Seq<u8>, i: int)
    requires
        p_str(b, i) is Some,
    ensures
        p_str(b + ext, i) == p_str(b, i),
{
    lemma_p_bytes_ext(b, ext, i);
}

proof fn lemma_p_optstr_ext(b: Seq<u8>, ext: Seq<u8>, i: int)
    requires
        p_optstr(b, i) is Some,
    ensures
        p_optstr(b + ext, i) == p_optstr(b, i),
{
    assert((b + ext)[i] == b[i]);
    if b[i] == 1 {
        lemma_p_str_ext(b, ext, i + 1);
    }
}

proof fn lemma_p_strseq_ext(b: Seq<u8>, ext: Seq<u8>, i: int, n: nat)
    requires
        p_strseq(b, i, n) is Some,
    ensures
        p_strseq(b + ext, i, n) == p_strseq(b, i, n),
    decreases n,
{
    if n > 0 {
        let (s, j) = p_str(b, i)->Some_0;
        lemma_p_str_ext(b, ext, i);
        lemma_p_strseq_ext(b, ext, j, (n - 1) as nat);
    }
}

proof fn lemma_p_entry_ext(b: Seq<u8>, ext: Seq<u8>, i: int)
    requires
        p_entry(b, i) is Some,
    ensures
        p_entry(b + ext, i) == p_entry(b, i),
{
    let (name, i1) = p_str(b, i)->Some_0;
    let (secret, i2) = p_str(b, i1)->Some_0;
    let (created, i3) = p_u64(b, i2)->Some_0;
    let (modified, i4) = p_u64(b, i3)->Some_0;
    let (url, i5) = p_optstr(b, i4)->Some_0;
    let (username, i6) = p_optstr(b, i5)->Some_0;
    let (notes, i7) = p_optstr(b, i6)->Some_0;
    let (ntags, i8) = p_u64(b, i7)->Some_0;
    lemma_p_str_ext(b, ext, i);
    lemma_p_str_ext(b, ext, i1);
    lemma_p_u64_ext(b, ext, i2);
    lemma_p_u64_ext(b, ext, i3);
    lemma_p_optstr_ext(b, ext, i4);
    lemma_p_optstr_ext(b, ext, i5);
    lemma_p_optstr_ext(b, ext, i6);
    lemma_p_u64_ext(b, ext, i7);
    lemma_p_strseq_ext(b, ext, i8, ntags as nat);
}

proof fn lemma_p_entries_ext(b: Seq<u8>, ext: Seq<u8>, i: int, n: nat)
    requires
        p_entries(b, i, n) is Some,
    ensures
        p_entries(b + ext, i, n) == p_entries(b, i, n),
    decreases n,
{
    if n > 0 {
        let (e, j) = p_entry(b, i)->Some_0;
        lemma_p_entry_ext(b, ext, i);
        lemma_p_entries_ext(b, ext, j, (n - 1) as nat);
    }
}

// ---------------------------------------------------------------------
// Serialization. Each writer appends to `out` and guarantees that the
// bytes it wrote parse back, at their start position, to the value given.
fn ser_u64(out: &mut Vec<u8>, x: u64)
    ensures
        old(out)@.is_prefix_of(final (out)@),
        final (out)@.len() == old(out)@.len() + 8,
        p_u64(final (out)@, old(out)@.len() as int) == Some::<(u64, int)>(
            (x, final (out)@.len() as int),
        ),
{
    let ghost start = out@.len() as int;
    assert(((x >> 0) & 0xff) < 256 && ((x >> 8) & 0xff) < 256 && ((x >> 16) & 0xff) < 256 && ((x
        >> 24) & 0xff) < 256 && ((x >> 32) & 0xff) < 256 && ((x >> 40) & 0xff) < 256 && ((x >> 48)
        & 0xff) < 256 && ((x >> 56) & 0xff) < 256) by (bit_vector);
    out.push(((x >> 0) & 0xff) as u8);
    out.push(((x >> 8) & 0xff) as u8);
    out.push(((x >> 16) & 0xff) as u8);
    out.push(((x >> 24) & 0xff) as u8);
    out.push(((x >> 32) & 0xff) as u8);
    out.push(((x >> 40) & 0xff) as u8);
    out.push(((x >> 48) & 0xff) as u8);
    out.push(((x >> 56) & 0xff) as u8);
    proof {
        assert(out@.subrange(start, start + 8) =~= le8(x));
        assert(out@.subrange(0, start) =~= old(out)@);
        lemma_rd8_le8(x);
    }
}

fn ser_bytes(out: &mut Vec<u8>, data: &Vec<u8>)
    ensures
        old(out)@.is_prefix_of(final (out)@),
        p_bytes(final (out)@, old(out)@.len() as int) == Some::<(Seq<u8>, int)>(
            (data@, final (out)@.len() as int),
        ),
{
    let ghost start = out@.len() as int;
    ser_u64(out, data.len() as u64);
    let ghost mid = out@;
    let mut k: usize = 0;
    while k < data.len()
        invariant
            k <= data.len(),
            out@.len() == mid.len() + k,
            mid.is_prefix_of(out@),
            out@.subrange(mid.len() as int, out@.len() as int) =~= data@.subrange(0, k as int),
        decreases data.len() - k,
    {
        out.push(data[k]);
        k = k + 1;
        proof {
            assert(out@.subrange(mid.len() as int, out@.len() as int) =~= data@.subrange(
                0,
                k as int,
            ));
            assert(out@.subrange(0, mid.len() as int) =~= mid);
        }
    }
    proof {
        let ghost ext = out@.subrange(mid.len() as int, out@.len() as int);
        assert(out@ =~= mid + ext);
        lemma_p_u64_ext(mid, ext, start);
        assert(ext =~= data@);
        assert(out@.subrange(mid.len() as int, mid.len() as int + data@.len() as int) =~= data@);
        assert(out@.subrange(0, start) =~= old(out)@);
    }
}

fn ser_str(out: &mut Vec<u8>, s: &str)
    ensures
        old(out)@.is_prefix_of(final (out)@),
        p_str(final (out)@, old(out)@.len() as int) == Some::<(Seq<char>, int)>(
            (s@, final (out)@.len() as int),
        ),
{
    let bv = s.as_bytes_vec();
    proof {
        vstd::utf8::encode_utf8_valid_utf8(s@);
        vstd::utf8::encode_utf8_decode_utf8(s@);
    }
    ser_bytes(out, &bv);
}

fn ser_optstr(out: &mut Vec<u8>, o: &Option<String>)
    ensures
        old(out)@.is_prefix_of(final (out)@),
        p_optstr(final (out)@, old(out)@.len() as int) == Some::<(Option<Seq<char>>, int)>(
            (crate::domain::opt_string_view(*o), final (out)@.len() as int),
        ),
{
    let ghost start = out@.len() as int;
    match o {
        None => {
            out.push(0u8);
            proof {
                assert(out@.subrange(0, start) =~= old(out)@);
            }
        },
        Some(s) => {
            out.push(1u8);
            let ghost mid = out@;
            proof {
                assert(mid[start] == 1u8);
            }
            ser_str(out, s.as_str());
            proof {
                assert(mid =~= out@.subrange(0, mid.len() as int));
                assert(out@[start] == mid[start]);
                assert(out@.subrange(0, start) =~= old(out)@);
            }
        },
    }
}

proof fn lemma_prefix_trans(a: Seq<u8>, b: Seq<u8>, c: Seq<u8>)
    requires
        a.is_prefix_of(b),
        b.is_prefix_of(c),
    ensures
        a.is_prefix_of(c),
{
    assert(a =~= c.subrange(0, a.len() as int));
}

/// Lifts a parse result from a prefix of the buffer to the whole buffer.
proof fn lemma_lift(b: Seq<u8>, c: Seq<u8>)
    requires
        b.is_prefix_of(c),
    ensures
        c =~= b + c.subrange(b.len() as int, c.len() as int),
{
}

fn ser_tags_from(out: &mut Vec<u8>, tags: &Vec<String>, idx: usize)
    requires
        idx <= tags@.len(),
    ensures
        old(out)@.is_prefix_of(final (out)@),
        p_strseq(final (out)@, old(out)@.len() as int, (tags@.len() - idx) as nat)
            == Some::<(Seq<Seq<char>>, int)>(
            (tags.deep_view().skip(idx as int), final (out)@.len() as int),
        ),
    decreases tags@.len() - idx,
{
    if idx == tags.len() {
        proof {
            assert(tags.deep_view().skip(idx as int) =~= Seq::<Seq<char>>::empty());
        }
    } else {
        let ghost start = out@.len() as int;
        ser_str(out, tags[idx].as_str());
        let ghost mid = out@;
        ser_tags_from(out, tags, idx + 1);
        proof {
            let ext = out@.subrange(mid.len() as int, out@.len() as int);
            lemma_lift(mid, out@);
            lemma_p_str_ext(mid, ext, start);
            lemma_prefix_trans(old(out)@, mid, out@);
            assert(tags.deep_view().skip(idx as int) =~= seq![tags.deep_view()[idx as int]]
                + tags.deep_view().skip(idx as int + 1));
        }
    }
}

#[verifier::rlimit(100)]
pub fn ser_entry(out: &mut Vec<u8>, e: &PasswordEntry)
    requires
        entry_wf(e.deep_view()),
    ensures
        old(out)@.is_prefix_of(final (out)@),
        p_entry(final (out)@, old(out)@.len() as int) == Some::<(EntryView, int)>(
            (e.deep_view(), final (out)@.len() as int),
        ),
{
    let ghost s0 = out@.len() as int;
    ser_str(out, e.name.as_str());
    let ghost b1 = out@;
    ser_str(out, e.password.as_str());
    let ghost b2 = out@;
    ser_u64(out, e.created_at);
    let ghost b3 = out@;
    ser_u64(out, e.modified_at);
    let ghost b4 = out@;
    ser_optstr(out, &e.metadata.url);
    let ghost b5 = out@;
    ser_optstr(out, &e.metadata.username);
    let ghost b6 = out@;
    ser_optstr(out, &e.metadata.notes);
    let ghost b7 = out@;
    ser_u64(out, e.metadata.tags.len() as u64);
    let ghost b8 = out@;
    ser_tags_from(out, &e.metadata.tags, 0);
    proof {
        let fin = out@;
        lemma_prefix_trans(b1, b2, b3);
        lemma_prefix_trans(b1, b3, b4);
        lemma_prefix_trans(b1, b4, b5);
        lemma_prefix_trans(b1, b5, b6);
        lemma_prefix_trans(b1, b6, b7);
        lemma_prefix_trans(b1, b7, b8);
        lemma_prefix_trans(b1, b8, fin);
        lemma_prefix_trans(b2, b3, b4);
        lemma_prefix_trans(b2, b4, b5);
        lemma_prefix_trans(b2, b5, b6);
        lemma_prefix_trans(b2, b6, b7);
        lemma_prefix_trans(b2, b7, b8);
        lemma_prefix_trans(b2, b8, fin);
        lemma_prefix_trans(b3, b4, b5);
        lemma_prefix_trans(b3, b5, b6);
        lemma_prefix_trans(b3, b6, b7);
        lemma_prefix_trans(b3, b7, b8);
        lemma_prefix_trans(b3, b8, fin);
        lemma_prefix_trans(b4, b5, b6);
        lemma_prefix_trans(b4, b6, b7);
        lemma_prefix_trans(b4, b7, b8);
        lemma_prefix_trans(b4, b8, fin);
        lemma_prefix_trans(b5, b6, b7);
        lemma_prefix_trans(b5, b7, b8);
        lemma_prefix_trans(b5, b8, fin);
        lemma_prefix_trans(b6, b7, b8);
        lemma_prefix_trans(b6, b8, fin);
        lemma_prefix_trans(b7, b8, fin);
        lemma_lift(b1, fin);
        lemma_p_str_ext(b1, fin.subrange(b1.len() as int, fin.len() as int), s0);
        lemma_lift(b2, fin);
        lemma_p_str_ext(b2, fin.subrange(b2.len() as int, fin.len() as int), b1.len() as int);
        lemma_lift(b3, fin);
        lemma_p_u64_ext(b3, fin.subrange(b3.len() as int, fin.len() as int), b2.len() as int);
        lemma_lift(b4, fin);
        lemma_p_u64_ext(b4, fin.subrange(b4.len() as int, fin.len() as int), b3.len() as int);
        lemma_lift(b5, fin);
        lemma_p_optstr_ext(b5, fin.subrange(b5.len() as int, fin.len() as int), b4.len() as int);
        lemma_lift(b6, fin);
        lemma_p_optstr_ext(b6, fin.subrange(b6.len() as int, fin.len() as int), b5.len() as int);
        lemma_lift(b7, fin);
        lemma_p_optstr_ext(b7, fin.subrange(b7.len() as int, fin.len() as int), b6.len() as int);
        lemma_lift(b8, fin);
        lemma_p_u64_ext(b8, fin.subrange(b8.len() as int, fin.len() as int), b7.len() as int);
        assert(e.metadata.tags.deep_view().skip(0) =~= e.metadata.tags.deep_view());
        assert(p_entry(fin, s0) == Some::<(EntryView, int)>((e.deep_view(), fin.len() as int)));
    }
}

#[verifier::rlimit(100)]
fn ser_entries_from(out: &mut Vec<u8>, entries: &Vec<PasswordEntry>, idx: usize)
    requires
        idx <= entries@.len(),
        forall|k: int| idx <= k < entries@.len() ==> entry_wf(#[trigger] entries.deep_view()[k]),
    ensures
        old(out)@.is_prefix_of(final (out)@),
        p_entries(final (out)@, old(out)@.len() as int, (entries@.len() - idx) as nat)
            == Some::<(Seq<EntryView>, int)>(
            (entries.deep_view().skip(idx as int), final (out)@.len() as int),
        ),
    decreases entries@.len() - idx,
{
    if idx == entries.len() {
        proof {
            assert(entries.deep_view().skip(idx as int) =~= Seq::<EntryView>::empty());
        }
    } else {
        let ghost start = out@.len() as int;
        proof {
            assert(entry_wf(entries.deep_view()[idx as int]));
        }
        ser_entry(out, &entries[idx]);
        let ghost mid = out@;
        ser_entries_from(out, entries, idx + 1);
        proof {
            let ext = out@.subrange(mid.len() as int, out@.len() as int);
            lemma_lift(mid, out@);
            lemma_p_entry_ext(mid, ext, start);
            lemma_prefix_trans(old(out)@, mid, out@);
            assert(entries.deep_view().skip(idx as int) =~= seq![
                entries.deep_view()[idx as int],
            ] + entries.deep_view().skip(idx as int + 1));
        }
    }
}

/// Encodes a catalogue's entries. The contract is the round trip itself:
/// parsing the produced bytes yields exactly the entries given.
pub fn serialize_entries(entries: &Vec<PasswordEntry>) -> (r: Vec<u8>)
    requires
        forall|k: int| 0 <= k < entries@.len() ==> entry_wf(#[trigger] entries.deep_view()[k]),
        unique_names(entries.deep_view()),
    ensures
        parse_catalogue_spec(r@) == Some(entries.deep_view()),
{
    let mut out: Vec<u8> = Vec::new();
    ser_u64(&mut out, entries.len() as u64);
    let ghost b1 = out@;
    ser_entries_from(&mut out, entries, 0);
    proof {
        let fin = out@;
        lemma_lift(b1, fin);
        lemma_p_u64_ext(b1, fin.subrange(b1.len() as int, fin.len() as int), 0);
        assert(entries.deep_view().skip(0) =~= entries.deep_view());
    }
    out
}

// ---------------------------------------------------------------------
// Parsing, executable: each function is proved to agree exactly with its
// specification counterpart.
fn parse_u64_at(b: &Vec<u8>, i: usize) -> (r: Option<(u64, usize)>)
    ensures
        match r {
            Some(p) => p_u64(b@, i as int) == Some::<(u64, int)>((p.0, p.1 as int)) && p.1
                <= b@.len(),
            None => p_u64(b@, i as int) is None,
        },
{
    if b.len() >= 8 && i <= b.len() - 8 {
        let x = (b[i] as u64) | ((b[i + 1] as u64) << 8u64) | ((b[i + 2] as u64) << 16u64) | ((b[i
            + 3] as u64) << 24u64) | ((b[i + 4] as u64) << 32u64) | ((b[i + 5] as u64) << 40u64)
            | ((b[i + 6] as u64) << 48u64) | ((b[i + 7] as u64) << 56u64);
        proof {
            let s = b@.subrange(i as int, i as int + 8);
            assert(s[0] == b@[i as int] && s[1] == b@[i as int + 1] && s[2] == b@[i as int + 2]
                && s[3] == b@[i as int + 3] && s[4] == b@[i as int + 4] && s[5] == b@[i as int + 5]
                && s[6] == b@[i as int + 6] && s[7] == b@[i as int + 7]);
        }
        Some((x, i + 8))
    } else {
        None
    }
}

fn parse_bytes_at(b: &Vec<u8>, i: usize) -> (r: Option<(Vec<u8>, usize)>)
    ensures
        match r {
            Some(p) => p_bytes(b@, i as int) == Some::<(Seq<u8>, int)>((p.0@, p.1 as int)) && p.1
                <= b@.len(),
            None => p_bytes(b@, i as int) is None,
        },
{
    match parse_u64_at(b, i) {
        None => None,
        Some((n, j)) => {
            if n <= (b.len() - j) as u64 {
                let m = n as usize;
                let mut v: Vec<u8> = Vec::new();
                let mut k: usize = 0;
                while k < m
                    invariant
                        k <= m,
                        j + m <= b@.len(),
                        j + m <= usize::MAX,
                        v@ =~= b@.subrange(j as int, j as int + k as int),
                    decreases m - k,
                {
                    v.push(b[j + k]);
                    k = k + 1;
                    proof {
                        assert(v@ =~= b@.subrange(j as int, j as int + k as int));
                    }
                }
                Some((v, j + m))
            } else {
                None
            }
        },
    }
}

fn parse_str_at(b: &Vec<u8>, i: usize) -> (r: Option<(String, usize)>)
    ensures
        match r {
            Some(p) => p_str(b@, i as int) == Some::<(Seq<char>, int)>((p.0@, p.1 as int)) && p.1
                <= b@.len(),
            None => p_str(b@, i as int) is None,
        },
{
    match parse_bytes_at(b, i) {
        None => None,
        Some((bs, j)) => {
            match crate::primitives::string_from_utf8(bs) {
                None => None,
                Some(s) => Some((s, j)),
            }
        },
    }
}

fn parse_optstr_at(b: &Vec<u8>, i: usize) -> (r: Option<(Option<String>, usize)>)
    ensures
        match r {
            Some(p) => p_optstr(b@, i as int) == Some::<(Option<Seq<char>>, int)>(
                (crate::domain::opt_string_view(p.0), p.1 as int),
            ) && p.1 <= b@.len(),
            None => p_optstr(b@, i as int) is None,
        },
{
    if i >= b.len() {
        None
    } else {
        let tag = b[i];
        if tag == 0 {
            Some((None, i + 1))
        } else if tag == 1 {
            match parse_str_at(b, i + 1) {
                None => None,
                Some((s, j)) => Some((Some(s), j)),
            }
        } else {
            None
        }
    }
}

fn parse_tags_at(b: &Vec<u8>, i: usize, n: u64) -> (r: Option<(Vec<String>, usize)>)
    requires
        i <= b@.len(),
    ensures
        match r {
            Some(p) => p_strseq(b@, i as int, n as nat) == Some::<(Seq<Seq<char>>, int)>(
                (p.0.deep_view(), p.1 as int),
            ) && p.1 <= b@.len(),
            None => p_strseq(b@, i as int, n as nat) is None,
        },
    decreases n,
{
    if n == 0 {
        let v: Vec<String> = Vec::new();
        proof {
            assert(v.deep_view() =~= Seq::<Seq<char>>::empty());
        }
        Some((v, i))
    } else {
        match parse_str_at(b, i) {
            None => None,
            Some((s, j)) => {
                match parse_tags_at(b, j, n - 1) {
                    None => None,
                    Some((rest, k)) => {
                        let mut v = rest;
                        let ghost rv = v.deep_view();
                        v.insert(0, s);
                        proof {
                            assert(v.deep_view() =~= seq![s@] + rv);
                        }
                        Some((v, k))
                    },
                }
            },
        }
    }
}

fn parse_entry_at(b: &Vec<u8>, i: usize) -> (r: Option<(PasswordEntry, usize)>)
    ensures
        match r {
            Some(p) => p_entry(b@, i as int) == Some::<(EntryView, int)>(
                (p.0.deep_view(), p.1 as int),
            ) && p.1 <= b@.len(),
            None => p_entry(b@, i as int) is None,
        },
{
    let name_s = match parse_str_at(b, i) {
        None => { return None },
        Some(p) => p,
    };
    let secret_s = match parse_str_at(b, name_s.1) {
        None => { return None },
        Some(p) => p,
    };
    let created = match parse_u64_at(b, secret_s.1) {
        None => { return None },
        Some(p) => p,
    };
    let modified = match parse_u64_at(b, created.1) {
        None => { return None },
        Some(p) => p,
    };
    let url = match parse_optstr_at(b, modified.1) {
        None => { return None },
        Some(p) => p,
    };
    let username = match parse_optstr_at(b, url.1) {
        None => { return None },
        Some(p) => p,
    };
    let notes = match parse_optstr_at(b, username.1) {
        None => { return None },
        Some(p) => p,
    };
    let ntags = match parse_u64_at(b, notes.1) {
        None => { return None },
        Some(p) => p,
    };
    let tags = match parse_tags_at(b, ntags.1, ntags.0) {
        None => { return None },
        Some(p) => p,
    };
    let name = match EntryName::new(name_s.0) {
        Err(_) => { return None },
        Ok(n) => n,
    };
    let secret = match Password::new(secret_s.0) {
        Err(_) => { return None },
        Ok(p) => p,
    };
    let e = PasswordEntry {
        name,
        password: secret,
        created_at: created.0,
        modified_at: modified.0,
        metadata: crate::domain::EntryMetadata {
            url: url.0,
            username: username.0,
            notes: notes.0,
            tags: tags.0,
        },
    };
    Some((e, tags.1))
}

fn parse_entries_at(b: &Vec<u8>, i: usize, n: u64) -> (r: Option<(Vec<PasswordEntry>, usize)>)
    requires
        i <= b@.len(),
    ensures
        match r {
            Some(p) => p_entries(b@, i as int, n as nat) == Some::<(Seq<EntryView>, int)>(
                (p.0.deep_view(), p.1 as int),
            ) && p.1 <= b@.len(),
            None => p_entries(b@, i as int, n as nat) is None,
        },
    decreases n,
{
    if n == 0 {
        let v: Vec<PasswordEntry> = Vec::new();
        proof {
            assert(v.deep_view() =~= Seq::<EntryView>::empty());
        }
        Some((v, i))
    } else {
        match parse_entry_at(b, i) {
            None => None,
            Some((e, j)) => {
                match parse_entries_at(b, j, n - 1) {
                    None => None,
                    Some((rest, k)) => {
                        let mut v = rest;
                        let ghost rv = v.deep_view();
                        let ghost ev = e.deep_view();
                        v.insert(0, e);
                        proof {
                            assert(v.deep_view() =~= seq![ev] + rv);
                        }
                        Some((v, k))
                    },
                }
            },
        }
    }
}

/// Whether two entries of the list share a name.
fn entries_unique(v: &Vec<PasswordEntry>) -> (r: bool)
    ensures
        r == unique_names(v.deep_view()),
{
    let mut x: usize = 0;
    while x < v.len()
        invariant
            x <= v@.len(),
            forall|p: int, q: int| 0 <= p < q < v@.len() && p < x ==> v.deep_view()[p].name
                != v.deep_view()[q].name,
        decreases v@.len() - x,
    {
        let mut y: usize = x + 1;
        while y < v.len()
            invariant
                x < y,
                y <= v@.len(),
                x < v@.len(),
                forall|q: int| x < q < y ==> v.deep_view()[x as int].name != v.deep_view()[q].name,
            decreases v@.len() - y,
        {
            if crate::domain::name_eq(&v[x].name, &v[y].name) {
                proof {
                    assert(v.deep_view()[x as int].name == v.deep_view()[y as int].name);
                    assert(!unique_names(v.deep_view()));
                }
                return false;
            }
            y = y + 1;
        }
        x = x + 1;
    }
    true
}

/// Decodes catalogue bytes; agrees exactly with `parse_catalogue_spec`.
pub fn parse_entries(b: &Vec<u8>) -> (r: Option<Vec<PasswordEntry>>)
    ensures
        match r {
            Some(v) => parse_catalogue_spec(b@) == Some(v.deep_view()) && unique_names(
                v.deep_view(),
            ) && forall|k: int|
                0 <= k < v@.len() ==> entry_wf(#[trigger] v.deep_view()[k]),
            None => parse_catalogue_spec(b@) is None,
        },
{
    let count = match parse_u64_at(b, 0) {
        None => { return None },
        Some(p) => p,
    };
    let parsed = match parse_entries_at(b, count.1, count.0) {
        None => { return None },
        Some(p) => p,
    };
    if parsed.1 != b.len() {
        return None;
    }
    if !entries_unique(&parsed.0) {
        return None;
    }
    proof {
        lemma_p_entries_wf(b@, count.1 as int, count.0 as nat);
    }
    Some(parsed.0)
}

/// Every entry that parses is well formed: the format itself rejects an
/// invalid name or an empty secret.
proof fn lemma_p_entries_wf(b: Seq<u8>, i: int, n: nat)
    requires
        p_entries(b, i, n) is Some,
    ensures
        forall|k: int|
            0 <= k < p_entries(b, i, n)->Some_0.0.len() ==> entry_wf(
                #[trigger] p_entries(b, i, n)->Some_0.0[k],
            ),
    decreases n,
{
    if n > 0 {
        let (e, j) = p_entry(b, i)->Some_0;
        lemma_p_entries_wf(b, j, (n - 1) as nat);
    }
}

} // verus!
