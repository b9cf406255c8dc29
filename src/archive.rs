use std::io::Cursor;
use std::io::Read;
use vstd::prelude::*;
use zip::result::ZipError;
use zip::ZipArchive;
use crate::error::GarError;
use crate::text::{char_vec, contains_char};

verus! {

#[verifier::external_type_specification]
#[verifier::external_body]
#[verifier::reject_recursive_types(R)]
pub struct ExZipArchive<R>(ZipArchive<R>);

#[verifier::external_type_specification]
#[verifier::external_body]
pub struct ExZipError(ZipError);

#[verifier::external_type_specification]
#[verifier::external_body]
#[verifier::reject_recursive_types(T)]
pub struct ExCursor<T>(Cursor<T>);

/// A log bundle opened over an in-memory buffer.
pub type Bundle = ZipArchive<Cursor<Vec<u8>>>;

/// Whether the zip format can open the bytes `b` as an archive.
pub uninterp spec fn bundle_opens(b: Seq<u8>) -> bool;

/// The entries that the zip format gives for the bytes `b`, in archive
/// order: each entry's name, and its decompressed data where that can be
/// read as UTF-8 text (`None` where the entry cannot be read as text).
pub uninterp spec fn bundle_entries(b: Seq<u8>) -> Seq<(Seq<char>, Option<Seq<char>>)>;

/// The entries of an opened bundle, in the same form as `bundle_entries`.
pub uninterp spec fn archive_entries(a: Bundle) -> Seq<(Seq<char>, Option<Seq<char>>)>;

/// Every entry can be read as text.
pub open spec fn all_readable(es: Seq<(Seq<char>, Option<Seq<char>>)>) -> bool {
    forall|i: int| 0 <= i < es.len() ==> (#[trigger] es[i]).1 is Some
}

/// The (name, text) pairs of entries that can all be read as text.
pub open spec fn read_view(es: Seq<(Seq<char>, Option<Seq<char>>)>) -> Seq<(Seq<char>, Seq<char>)> {
    es.map_values(|e: (Seq<char>, Option<Seq<char>>)| (e.0, e.1->Some_0))
}

/// The separator line written around the name of a nested entry.
pub open spec fn rule_line() -> Seq<char> {
    "\n--------------\n"@
}

/// An entry whose name holds a path separator lies in a subdirectory.
pub open spec fn is_nested(name: Seq<char>) -> bool {
    name.contains('/')
}

/// The texts of the root-level entries, concatenated in archive order.
pub open spec fn root_text(es: Seq<(Seq<char>, Seq<char>)>) -> Seq<char>
    decreases es.len(),
{
    if es.len() == 0 {
        Seq::empty()
    } else {
        let e = es.last();
        root_text(es.drop_last()) + if is_nested(e.0) { Seq::empty() } else { e.1 }
    }
}

/// The delimited block that a nested entry contributes.
pub open spec fn nested_block(name: Seq<char>, text: Seq<char>) -> Seq<char> {
    rule_line() + name + rule_line() + text
}

/// The blocks of the nested entries, concatenated in archive order.
pub open spec fn nested_text(es: Seq<(Seq<char>, Seq<char>)>) -> Seq<char>
    decreases es.len(),
{
    if es.len() == 0 {
        Seq::empty()
    } else {
        let e = es.last();
        nested_text(es.drop_last()) + if is_nested(e.0) { nested_block(e.0, e.1) } else { Seq::empty() }
    }
}

/// The flattened text of a bundle: every root entry first, then every nested one.
pub open spec fn merged(es: Seq<(Seq<char>, Seq<char>)>) -> Seq<char> {
    root_text(es) + nested_text(es)
}

/// The (name, text) pairs as character sequences.
pub open spec fn entries_view(es: Seq<(String, String)>) -> Seq<(Seq<char>, Seq<char>)> {
    es.map_values(|e: (String, String)| (e.0@, e.1@))
}

/// Relies on `ZipArchive::new` over a `Cursor`: reads the central directory,
/// after which the archive lists the entries that the bytes hold. Whether
/// it succeeds depends on the bytes alone.
#[verifier::external_body]
fn open_bundle(bytes: Vec<u8>) -> (r: Result<Bundle, ZipError>)
    ensures
        r is Ok <==> bundle_opens(bytes@),
        r matches Ok(a) ==> archive_entries(a) == bundle_entries(bytes@),
{
    ZipArchive::new(Cursor::new(bytes))
}

/// Relies on `ZipArchive::len`: the number of entries.
#[verifier::external_body]
fn entry_count(a: &Bundle) -> (n: usize)
    ensures
        n == archive_entries(*a).len(),
{
    a.len()
}

/// Relies on `ZipArchive::by_index_decrypt` with an empty password (which,
/// unlike `by_index`, hands back a refused password as a value rather than
/// panicking), `ZipFile::name` and `Read::read_to_string`: the name and the
/// whole decompressed text of entry `i`. Reading fails where the entry
/// cannot be decoded or its text is not valid UTF-8; each entry is located
/// from the central directory, so the outcome does not depend on earlier
/// reads, and the entry list itself does not change.
#[verifier::external_body]
fn read_entry(a: &mut Bundle, i: usize) -> (r: Result<(String, String), ZipError>)
    requires
        i < archive_entries(*old(a)).len(),
    ensures
        archive_entries(*final(a)) == archive_entries(*old(a)),
        r is Ok <==> archive_entries(*old(a))[i as int].1 is Some,
        r matches Ok(e) ==> e.0@ == archive_entries(*old(a))[i as int].0
            && Some(e.1@) == archive_entries(*old(a))[i as int].1,
{
    let mut file = match a.by_index_decrypt(i, b"")? {
        Ok(f) => f,
        Err(_) => return Err(ZipError::UnsupportedArchive(ZipError::PASSWORD_REQUIRED)),
    };
    let name = file.name().to_string();
    let mut text = String::new();
    file.read_to_string(&mut text).map_err(ZipError::from)?;
    Ok((name, text))
}

proof fn lemma_merged_parts(es: Seq<(Seq<char>, Seq<char>)>, i: int)
    requires
        0 < i <= es.len(),
    ensures
        root_text(es.take(i)) == root_text(es.take(i - 1)) + if is_nested(es[i - 1].0) {
            Seq::empty()
        } else {
            es[i - 1].1
        },
        nested_text(es.take(i)) == nested_text(es.take(i - 1)) + if is_nested(es[i - 1].0) {
            nested_block(es[i - 1].0, es[i - 1].1)
        } else {
            Seq::empty()
        },
{
    assert(es.take(i).drop_last() =~= es.take(i - 1));
}

proof fn lemma_texts_append(a: Seq<(Seq<char>, Seq<char>)>, b: Seq<(Seq<char>, Seq<char>)>)
    ensures
        root_text(a + b) == root_text(a) + root_text(b),
        nested_text(a + b) == nested_text(a) + nested_text(b),
    decreases b.len(),
{
    if b.len() == 0 {
        assert(a + b =~= a);
        assert(root_text(a) + root_text(b) =~= root_text(a));
        assert(nested_text(a) + nested_text(b) =~= nested_text(a));
    } else {
        lemma_texts_append(a, b.drop_last());
        assert((a + b).drop_last() =~= a + b.drop_last());
        assert((a + b).last() == b.last());
        assert(root_text(a + b) =~= root_text(a) + root_text(b));
        assert(nested_text(a + b) =~= nested_text(a) + nested_text(b));
    }
}

/// Where a nested entry stands relative to a root-level entry does not
/// matter: exchanging a root-level entry with a nested entry next to it
/// leaves the flattened text unchanged. Root-level texts always come first,
/// in their own order, and nested blocks after them, in theirs.
pub proof fn lemma_nested_position_irrelevant(es: Seq<(Seq<char>, Seq<char>)>, i: int)
    requires
        0 <= i,
        i + 1 < es.len(),
        is_nested(es[i].0) != is_nested(es[i + 1].0),
    ensures
        merged(es.update(i, es[i + 1]).update(i + 1, es[i])) == merged(es),
{
    let swapped = es.update(i, es[i + 1]).update(i + 1, es[i]);
    let pre = es.take(i);
    let post = es.skip(i + 2);
    let pair = seq![es[i], es[i + 1]];
    let rev = seq![es[i + 1], es[i]];
    assert(es =~= pre + pair + post);
    assert(swapped =~= pre + rev + post);
    lemma_texts_append(pre + pair, post);
    lemma_texts_append(pre, pair);
    lemma_texts_append(pre + rev, post);
    lemma_texts_append(pre, rev);
    assert(pair.drop_last() =~= seq![es[i]]);
    assert(rev.drop_last() =~= seq![es[i + 1]]);
    assert(seq![es[i]].drop_last() =~= Seq::<(Seq<char>, Seq<char>)>::empty());
    assert(seq![es[i + 1]].drop_last() =~= Seq::<(Seq<char>, Seq<char>)>::empty());
    reveal_with_fuel(root_text, 3);
    reveal_with_fuel(nested_text, 3);
    assert(root_text(pair) =~= root_text(rev));
    assert(nested_text(pair) =~= nested_text(rev));
}

/// Flattens (name, text) entries into one text: first the texts of the
/// root-level entries back to back, then, for each nested entry, a rule
/// line, its name, a rule line and its text; both passes in archive order.
pub fn merge_entries(entries: &Vec<(String, String)>) -> (r: String)
    ensures
        r@ == merged(entries_view(entries@)),
{
    let ghost es = entries_view(entries@);
    let mut r = String::new();
    let mut i: usize = 0;
    while i < entries.len()
        invariant
            es == entries_view(entries@),
            i <= entries@.len(),
            r@ == root_text(es.take(i as int)),
        decreases entries@.len() - i,
    {
        proof { lemma_merged_parts(es, i + 1); }
        let name = char_vec(entries[i].0.as_str());
        if !contains_char(&name, '/') {
            r.append(entries[i].1.as_str());
        }
        i = i + 1;
    }
    assert(es.take(i as int) =~= es);
    let ghost roots = r@;
    let mut j: usize = 0;
    while j < entries.len()
        invariant
            es == entries_view(entries@),
            roots == root_text(es),
            j <= entries@.len(),
            r@ == roots + nested_text(es.take(j as int)),
        decreases entries@.len() - j,
    {
        proof { lemma_merged_parts(es, j + 1); }
        let name = char_vec(entries[j].0.as_str());
        if contains_char(&name, '/') {
            let ghost before = r@;
            r.append("\n--------------\n");
            r.append(entries[j].0.as_str());
            r.append("\n--------------\n");
            r.append(entries[j].1.as_str());
            assert(r@ =~= before + nested_block(es[j as int].0, es[j as int].1));
        }
        j = j + 1;
    }
    assert(es.take(j as int) =~= es);
    r
}

/// Opens a zip bundle held in memory and flattens its entries as
/// `merge_entries` does. Bytes that are not an archive, or any entry that
/// cannot be read as text, fail the whole merge: there is no partial text.
pub fn unzip_and_concatenate(data_bytes: Vec<u8>) -> (r: Result<String, GarError>)
    ensures
        r is Ok <==> bundle_opens(data_bytes@) && all_readable(bundle_entries(data_bytes@)),
        r matches Ok(t) ==> t@ == merged(read_view(bundle_entries(data_bytes@))),
        r matches Err(e) ==> e is ArchiveDecodeFailed,
{
    let ghost bytes = data_bytes@;
    let mut archive = match open_bundle(data_bytes) {
        Ok(a) => a,
        Err(_) => return Err(GarError::ArchiveDecodeFailed),
    };
    let n = entry_count(&archive);
    let ghost all = archive_entries(archive);
    let mut entries: Vec<(String, String)> = Vec::new();
    let mut i: usize = 0;
    while i < n
        invariant
            bytes == data_bytes@,
            bundle_opens(bytes),
            all == bundle_entries(bytes),
            archive_entries(archive) == all,
            n == all.len(),
            i <= n,
            forall|k: int| 0 <= k < i ==> (#[trigger] all[k]).1 is Some,
            entries_view(entries@) =~= read_view(all.take(i as int)),
        decreases n - i,
    {
        match read_entry(&mut archive, i) {
            Ok(e) => {
                let ghost before = entries@;
                entries.push(e);
                assert(entries@ == before.push(e));
                assert(entries_view(entries@) =~= entries_view(before).push((e.0@, e.1@)));
            },
            Err(_) => {
                assert(!all_readable(all));
                return Err(GarError::ArchiveDecodeFailed);
            },
        }
        i = i + 1;
        assert(entries_view(entries@) =~= read_view(all.take(i as int)));
    }
    assert(all.take(n as int) =~= all);
    Ok(merge_entries(&entries))
}

} // verus!
