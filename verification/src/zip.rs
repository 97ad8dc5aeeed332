//! Archive extraction and batch processing of archived documents.
//!
//! Reading the container is delegated to the zip crate; everything decided
//! about the entries — which are dropped as directories or platform
//! metadata, which count as documents or images, how identical image bytes
//! collapse to one content-addressed entry, and how each document's parse
//! failure is isolated — is verified.

use vstd::prelude::*;
use crate::media::{process_image, spec_image_hash, ImageRef};
use crate::models::{Question, QuestionData};
use crate::parser::{md_events_of, parse_markdown, spec_parse_questions};
use crate::text::{
    ends_with_ci_seq, ends_with_ci, ends_with_seq, ends_with_str, starts_with_seq, starts_with_str,
};

verus! {

/// Fallback worker cap used when the surrounding program does not pass a
/// detected hardware parallelism.
pub const DEFAULT_WORKERS: usize = 4;

/// One member read from an archive container, before any classification.
pub struct RawEntry {
    /// Path of the member within the archive
    pub path: String,
    /// Raw member content
    pub content: Vec<u8>,
}

/// Ghost view of an archive member.
pub ghost struct EntryData {
    pub path: Seq<char>,
    pub content: Seq<u8>,
}

impl View for RawEntry {
    type V = EntryData;

    open spec fn view(&self) -> EntryData {
        EntryData { path: self.path@, content: self.content@ }
    }
}

/// The members an archive holds: `None` when the container is unreadable,
/// otherwise every member in archive order, named and decompressed.
pub uninterp spec fn archive_entries_of(data: Seq<u8>) -> Option<Seq<EntryData>>;

/// Failure to read an archive container.
#[derive(Debug)]
pub struct ArchiveError {
    /// What the container reader reported
    pub message: String,
}

/// Relies on zip::ZipArchive (new, len, by_index, name, and the member
/// Read impl): reading the central directory and decompressing every member.
/// Which members an in-memory archive holds is a function of its bytes alone.
#[verifier::external_body]
fn read_archive(data: &Vec<u8>) -> (r: Result<Vec<RawEntry>, ArchiveError>)
    ensures
        r is Ok <==> archive_entries_of(data@) is Some,
        r is Ok ==> r->Ok_0@.map_values(|e: RawEntry| e@) == archive_entries_of(data@)->Some_0,
{
    let mut archive = ::zip::ZipArchive::new(std::io::Cursor::new(data.as_slice()))
        .map_err(|e| ArchiveError { message: e.to_string() })?;
    let mut out: Vec<RawEntry> = Vec::new();
    for i in 0..archive.len() {
        let mut f = archive.by_index(i).map_err(|e| ArchiveError { message: e.to_string() })?;
        let path = f.name().to_string();
        let mut content: Vec<u8> = Vec::new();
        std::io::Read::read_to_end(&mut f, &mut content)
            .map_err(|e| ArchiveError { message: e.to_string() })?;
        out.push(RawEntry { path, content });
    }
    Ok(out)
}

/// The characters a byte sequence decodes to as UTF-8, or `None` when it is
/// not valid UTF-8.
pub uninterp spec fn utf8_decode(b: Seq<u8>) -> Option<Seq<char>>;

/// Relies on String::from_utf8: UTF-8 validation and decoding, a function of
/// the bytes alone.
#[verifier::external_body]
fn bytes_to_string(b: &Vec<u8>) -> (r: Option<String>)
    ensures
        r is Some <==> utf8_decode(b@) is Some,
        r is Some ==> r->0@ == utf8_decode(b@)->0,
{
    String::from_utf8(b.clone()).ok()
}

/// Paths with a markdown extension are documents (case-insensitive).
pub open spec fn spec_is_markdown(path: Seq<char>) -> bool {
    ends_with_ci_seq(path, ".md"@)
}

/// Paths with a known image extension are images (case-insensitive).
pub open spec fn spec_is_image(path: Seq<char>) -> bool {
    ||| ends_with_ci_seq(path, ".png"@)
    ||| ends_with_ci_seq(path, ".jpg"@)
    ||| ends_with_ci_seq(path, ".jpeg"@)
    ||| ends_with_ci_seq(path, ".gif"@)
    ||| ends_with_ci_seq(path, ".webp"@)
}

/// Index of the last `/` in a path, or -1 when there is none.
pub open spec fn last_slash(p: Seq<char>) -> int
    decreases p.len(),
{
    if p.len() == 0 {
        -1
    } else if p.last() == '/' {
        p.len() - 1
    } else {
        last_slash(p.drop_last())
    }
}

/// The file name of a path: what follows its last separator.
pub open spec fn spec_filename(p: Seq<char>) -> Seq<char> {
    p.skip(last_slash(p) + 1)
}

proof fn lemma_last_slash_char(p: Seq<char>, j: int)
    requires
        0 <= j <= p.len(),
        j == 0 || p[j - 1] == '/',
        forall|k: int| j <= k < p.len() ==> p[k] != '/',
    ensures
        last_slash(p) == j - 1,
    decreases p.len(),
{
    if p.len() == 0 {
    } else if p.last() == '/' {
        assert(j == p.len());
    } else {
        assert(j < p.len() || (j == p.len() && p[j - 1] == '/'));
        assert(j != p.len());
        lemma_last_slash_char(p.drop_last(), j);
    }
}

/// An entry the extractor silently drops: a directory (trailing separator),
/// a reserved metadata directory, or a file whose name carries the reserved
/// dot-underscore prefix.
pub open spec fn spec_skips_entry(path: Seq<char>) -> bool {
    ||| ends_with_seq(path, "/"@)
    ||| starts_with_seq(path, "__MACOSX/"@)
    ||| starts_with_seq(spec_filename(path), "._"@)
}

fn filename_starts_dot_underscore(path: &str) -> (r: bool)
    ensures
        r == starts_with_seq(spec_filename(path@), "._"@),
{
    let n = path.unicode_len();
    let mut j: usize = n;
    while j > 0 && path.get_char(j - 1) != '/'
        invariant
            n == path@.len(),
            0 <= j <= n,
            forall|k: int| j <= k < n ==> path@[k] != '/',
        decreases j,
    {
        j = j - 1;
    }
    proof {
        lemma_last_slash_char(path@, j as int);
        reveal_strlit("._");
        assert("._"@.len() == 2 && "._"@[0] == '.' && "._"@[1] == '_');
    }
    if n - j > 1 {
        let c0 = path.get_char(j);
        let c1 = path.get_char(j + 1);
        proof {
            assert(spec_filename(path@) == path@.skip(j as int));
            assert(spec_filename(path@).len() == n - j);
            assert(spec_filename(path@)[0] == path@[j as int]);
            assert(spec_filename(path@)[1] == path@[j + 1]);
        }
        c0 == '.' && c1 == '_'
    } else {
        proof {
            assert(spec_filename(path@).len() == n - j);
            assert(!starts_with_seq(spec_filename(path@), "._"@));
        }
        false
    }
}

/// Whether the extractor drops this entry.
pub fn skips_entry(path: &str) -> (r: bool)
    ensures
        r == spec_skips_entry(path@),
{
    if ends_with_str(path, "/") {
        return true;
    }
    if starts_with_str(path, "__MACOSX/") {
        return true;
    }
    filename_starts_dot_underscore(path)
}

/// Entry extracted from an archive, classified by its extension.
pub struct ZipEntry {
    /// Path of the file within the archive
    pub path: String,
    /// Raw file content
    pub content: Vec<u8>,
    /// Whether this is a markdown document
    pub is_markdown: bool,
    /// Whether this is an image file
    pub is_image: bool,
}

impl ZipEntry {
    /// The path and content of this entry.
    pub open spec fn entry_data(&self) -> EntryData {
        EntryData { path: self.path@, content: self.content@ }
    }

    /// Classify a named member: the tags are decided by the extension alone,
    /// case-insensitively.
    pub fn new(path: String, content: Vec<u8>) -> (r: Self)
        ensures
            r.path == path,
            r.content == content,
            r.is_markdown == spec_is_markdown(path@),
            r.is_image == spec_is_image(path@),
    {
        let is_markdown = ends_with_ci(path.as_str(), ".md");
        let is_image = ends_with_ci(path.as_str(), ".png") || ends_with_ci(path.as_str(), ".jpg")
            || ends_with_ci(path.as_str(), ".jpeg") || ends_with_ci(path.as_str(), ".gif")
            || ends_with_ci(path.as_str(), ".webp");
        ZipEntry { path, content, is_markdown, is_image }
    }

    /// The content as text: exactly the UTF-8 decoding of the bytes, or an
    /// error naming the file when the bytes are not valid UTF-8.
    pub fn as_string(&self) -> (r: Result<String, ArchiveError>)
        ensures
            r is Ok <==> utf8_decode(self.content@) is Some,
            r is Ok ==> r->Ok_0@ == utf8_decode(self.content@)->0,
            r is Err ==> r->Err_0.message@ == "Invalid UTF-8 in file "@ + self.path@,
    {
        match bytes_to_string(&self.content) {
            Option::Some(s) => Result::Ok(s),
            Option::None => Result::Err(
                ArchiveError {
                    message: String::from_str("Invalid UTF-8 in file ").concat(self.path.as_str()),
                },
            ),
        }
    }
}

/// The document entries of an archive listing: entries that are not dropped
/// and carry the document extension, in archive order.
pub open spec fn spec_doc_entries(es: Seq<EntryData>) -> Seq<EntryData>
    decreases es.len(),
{
    if es.len() == 0 {
        Seq::empty()
    } else {
        let prev = spec_doc_entries(es.drop_last());
        if !spec_skips_entry(es.last().path) && spec_is_markdown(es.last().path) {
            prev.push(es.last())
        } else {
            prev
        }
    }
}

/// The image entries of an archive listing: entries that are not dropped and
/// carry an image extension, in archive order.
pub open spec fn spec_image_entries(es: Seq<EntryData>) -> Seq<EntryData>
    decreases es.len(),
{
    if es.len() == 0 {
        Seq::empty()
    } else {
        let prev = spec_image_entries(es.drop_last());
        if !spec_skips_entry(es.last().path) && !spec_is_markdown(es.last().path)
            && spec_is_image(es.last().path) {
            prev.push(es.last())
        } else {
            prev
        }
    }
}

/// Whether an association list holds a key.
pub open spec fn map_has_key(m: Seq<(Seq<char>, Seq<u8>)>, k: Seq<char>) -> bool {
    exists|i: int| 0 <= i < m.len() && m[i].0 == k
}

/// The content-addressed image map of a sequence of image entries: each
/// entry keyed by the hash of its bytes, first occurrence kept, duplicates
/// collapsed.
pub open spec fn spec_image_map(imgs: Seq<EntryData>) -> Seq<(Seq<char>, Seq<u8>)>
    decreases imgs.len(),
{
    if imgs.len() == 0 {
        Seq::empty()
    } else {
        let prev = spec_image_map(imgs.drop_last());
        if map_has_key(prev, spec_image_hash(imgs.last().content)) {
            prev
        } else {
            prev.push((spec_image_hash(imgs.last().content), imgs.last().content))
        }
    }
}

/// Whether the association list already holds this hash key.
pub fn map_contains(map: &Vec<(String, Vec<u8>)>, key: &String) -> (r: bool)
    ensures
        r == map_has_key(map@.map_values(|p: (String, Vec<u8>)| (p.0@, p.1@)), key@),
{
    let n = map.len();
    for i in 0..n
        invariant
            n == map@.len(),
            forall|j: int| 0 <= j < i ==> map@[j].0@ != key@,
    {
        if map[i].0 == *key {
            proof {
                let m = map@.map_values(|p: (String, Vec<u8>)| (p.0@, p.1@));
                assert(m[i as int].0 == key@);
            }
            return true;
        }
    }
    proof {
        let m = map@.map_values(|p: (String, Vec<u8>)| (p.0@, p.1@));
        assert(forall|j: int| 0 <= j < m.len() ==> m[j].0 == map@[j].0@);
    }
    false
}

/// One image map folded into another: entries of the second are appended in
/// order unless their key is already present.
pub open spec fn merge_image_maps(
    m1: Seq<(Seq<char>, Seq<u8>)>,
    m2: Seq<(Seq<char>, Seq<u8>)>,
) -> Seq<(Seq<char>, Seq<u8>)>
    decreases m2.len(),
{
    if m2.len() == 0 {
        m1
    } else {
        let prev = merge_image_maps(m1, m2.drop_last());
        if map_has_key(prev, m2.last().0) {
            prev
        } else {
            prev.push(m2.last())
        }
    }
}

/// Fold one image map into another, keeping first occurrences.
pub fn merge_images(map: &mut Vec<(String, Vec<u8>)>, incoming: Vec<(String, Vec<u8>)>)
    ensures
        final(map)@.map_values(|p: (String, Vec<u8>)| (p.0@, p.1@)) == merge_image_maps(
            old(map)@.map_values(|p: (String, Vec<u8>)| (p.0@, p.1@)),
            incoming@.map_values(|p: (String, Vec<u8>)| (p.0@, p.1@)),
        ),
{
    let ghost all = incoming@.map_values(|p: (String, Vec<u8>)| (p.0@, p.1@));
    let ghost base = old(map)@.map_values(|p: (String, Vec<u8>)| (p.0@, p.1@));
    let ghost n: int = all.len() as int;
    let ghost mut k: int = 0;
    let mut rest = incoming;
    while rest.len() > 0
        invariant
            n == all.len(),
            0 <= k,
            k + rest@.len() == n,
            rest@.map_values(|p: (String, Vec<u8>)| (p.0@, p.1@)) =~= all.skip(k),
            map@.map_values(|p: (String, Vec<u8>)| (p.0@, p.1@)) =~= merge_image_maps(
                base,
                all.take(k),
            ),
        decreases rest@.len(),
    {
        let ghost pre = rest@;
        let e = rest.remove(0);
        proof {
            assert((e.0@, e.1@) == pre.map_values(|p: (String, Vec<u8>)| (p.0@, p.1@))[0]);
            assert((e.0@, e.1@) == all[k]);
            assert(all.take(k + 1).drop_last() =~= all.take(k));
            assert(all.take(k + 1).last() == all[k]);
            crate::text::lemma_map_values_remove0(pre, |p: (String, Vec<u8>)| (p.0@, p.1@));
            assert(all.skip(k).skip(1) =~= all.skip(k + 1));
            assert(rest@.map_values(|p: (String, Vec<u8>)| (p.0@, p.1@)) =~= all.skip(k + 1));
        }
        if !map_contains(map, &e.0) {
            map.push(e);
            proof {
                assert(map@.map_values(|p: (String, Vec<u8>)| (p.0@, p.1@)) =~= merge_image_maps(
                    base,
                    all.take(k + 1),
                ));
            }
        }
        proof {
            k = k + 1;
        }
    }
    proof {
        assert(all.take(n) =~= all);
        assert(map@.map_values(|p: (String, Vec<u8>)| (p.0@, p.1@)) =~= merge_image_maps(
            base,
            all,
        ));
    }
}

/// The questions of a sequence of document entries: for each document that
/// decodes as UTF-8, what the parser extracts, concatenated in entry order;
/// a document that does not decode contributes nothing.
pub open spec fn spec_zip_questions(docs: Seq<EntryData>) -> Seq<QuestionData>
    decreases docs.len(),
{
    if docs.len() == 0 {
        Seq::empty()
    } else {
        let prev = spec_zip_questions(docs.drop_last());
        match utf8_decode(docs.last().content) {
            Option::Some(text) => prev + spec_parse_questions(md_events_of(text)),
            Option::None => prev,
        }
    }
}

/// The warning raised for a document that is not valid UTF-8.
pub open spec fn spec_doc_warning(path: Seq<char>) -> Seq<char> {
    "Failed to parse "@ + path + ": invalid UTF-8"@
}

/// The warnings of a sequence of document entries: one per document that
/// does not decode, in entry order.
pub open spec fn spec_zip_warnings(docs: Seq<EntryData>) -> Seq<Seq<char>>
    decreases docs.len(),
{
    if docs.len() == 0 {
        Seq::empty()
    } else {
        let prev = spec_zip_warnings(docs.drop_last());
        match utf8_decode(docs.last().content) {
            Option::Some(text) => prev,
            Option::None => prev.push(spec_doc_warning(docs.last().path)),
        }
    }
}

/// Order preservation carries through archives: every question of every
/// document of an archive has its options in contiguous zero-based order.
pub proof fn lemma_zip_questions_ordered(docs: Seq<EntryData>)
    ensures
        forall|i: int|
            0 <= i < spec_zip_questions(docs).len() ==> crate::parser::options_ordered(
                #[trigger] spec_zip_questions(docs)[i],
            ),
    decreases docs.len(),
{
    if docs.len() > 0 {
        lemma_zip_questions_ordered(docs.drop_last());
        let prev = spec_zip_questions(docs.drop_last());
        match utf8_decode(docs.last().content) {
            Option::Some(text) => {
                crate::parser::lemma_parse_options_ordered(md_events_of(text));
                let tail = spec_parse_questions(md_events_of(text));
                assert forall|i: int| 0 <= i < spec_zip_questions(docs).len() implies
                    crate::parser::options_ordered(#[trigger] spec_zip_questions(docs)[i]) by {
                    if i < prev.len() {
                        assert(spec_zip_questions(docs)[i] == prev[i]);
                    } else {
                        assert(spec_zip_questions(docs)[i] == tail[i - prev.len()]);
                    }
                }
            },
            Option::None => {},
        }
    }
}

/// Result of processing one archive.
pub struct ZipProcessResult {
    /// All parsed questions
    pub questions: Vec<Question>,
    /// Deduplicated images: content hash paired with the bytes
    pub images: Vec<(String, Vec<u8>)>,
    /// Warnings generated during processing, one per failed document
    pub warnings: Vec<String>,
}

/// Archive processor. The worker cap bounds how much work the surrounding
/// program schedules at once; the result it must produce is fixed here.
pub struct ZipProcessor {
    max_workers: usize,
}

impl ZipProcessor {
    /// The configured worker cap.
    pub closed spec fn workers(&self) -> usize {
        self.max_workers
    }

    /// Create a new archive processor with the fallback worker cap.
    pub fn new() -> (r: Self)
        ensures
            r.workers() == DEFAULT_WORKERS,
    {
        ZipProcessor { max_workers: DEFAULT_WORKERS }
    }

    /// Create an archive processor with a specific worker cap.
    pub fn with_workers(workers: usize) -> (r: Self)
        ensures
            r.workers() == workers,
    {
        ZipProcessor { max_workers: workers }
    }

    /// Partition an archive listing: dropped entries disappear, the rest are
    /// classified; documents and images come back in archive order.
    fn partition_entries(raw: Vec<RawEntry>) -> (r: (Vec<ZipEntry>, Vec<ZipEntry>))
        ensures
            r.0@.map_values(|e: ZipEntry| e.entry_data()) == spec_doc_entries(
                raw@.map_values(|e: RawEntry| e@),
            ),
            r.1@.map_values(|e: ZipEntry| e.entry_data()) == spec_image_entries(
                raw@.map_values(|e: RawEntry| e@),
            ),
    {
        let ghost all = raw@.map_values(|e: RawEntry| e@);
        let mut raw = raw;
        let mut docs: Vec<ZipEntry> = Vec::new();
        let mut images: Vec<ZipEntry> = Vec::new();
        let ghost n = all.len();
        let ghost mut k: int = 0;
        while raw.len() > 0
            invariant
                n == all.len(),
                0 <= k,
                k + raw@.len() == n,
                raw@.map_values(|e: RawEntry| e@) =~= all.skip(k),
                docs@.map_values(|e: ZipEntry| e.entry_data()) =~= spec_doc_entries(
                    all.take(k),
                ),
                images@.map_values(|e: ZipEntry| e.entry_data()) =~= spec_image_entries(
                    all.take(k),
                ),
            decreases raw@.len(),
        {
            let ghost pre = raw@;
            let e = raw.remove(0);
            proof {
                assert(e@ == pre.map_values(|e: RawEntry| e@)[0]);
                assert(e@ == all[k]);
                assert(all.take(k + 1).drop_last() =~= all.take(k));
                assert(all.take(k + 1).last() == all[k]);
                crate::text::lemma_map_values_remove0(pre, |e: RawEntry| e@);
                assert(all.skip(k).skip(1) =~= all.skip(k + 1));
                assert(raw@.map_values(|e: RawEntry| e@) =~= all.skip(k + 1));
            }
            if !skips_entry(e.path.as_str()) {
                let entry = ZipEntry::new(e.path, e.content);
                if entry.is_markdown {
                    docs.push(entry);
                    proof {
                        assert(docs@.map_values(|e: ZipEntry| e.entry_data()) =~= spec_doc_entries(
                            all.take(k + 1),
                        ));
                    }
                } else if entry.is_image {
                    images.push(entry);
                    proof {
                        assert(images@.map_values(|e: ZipEntry| e.entry_data())
                            =~= spec_image_entries(all.take(k + 1)));
                    }
                }
            }
            proof {
                k = k + 1;
            }
        }
        proof {
            assert(all.take(n as int) =~= all);
        }
        (docs, images)
    }

    /// Collapse image entries to a content-addressed map: one entry per
    /// distinct content hash, first occurrence kept.
    fn process_images(&self, image_entries: Vec<ZipEntry>) -> (r: Vec<(String, Vec<u8>)>)
        ensures
            r@.map_values(|p: (String, Vec<u8>)| (p.0@, p.1@)) == spec_image_map(
                image_entries@.map_values(|e: ZipEntry| e.entry_data()),
            ),
    {
        let ghost all = image_entries@.map_values(|e: ZipEntry| e.entry_data());
        let mut entries = image_entries;
        let mut map: Vec<(String, Vec<u8>)> = Vec::new();
        let ghost n = all.len();
        let ghost mut k: int = 0;
        while entries.len() > 0
            invariant
                n == all.len(),
                0 <= k,
                k + entries@.len() == n,
                entries@.map_values(|e: ZipEntry| e.entry_data()) =~= all.skip(k),
                map@.map_values(|p: (String, Vec<u8>)| (p.0@, p.1@)) =~= spec_image_map(
                    all.take(k),
                ),
            decreases entries@.len(),
        {
            let ghost pre = entries@;
            let e = entries.remove(0);
            proof {
                assert(e.entry_data() == pre.map_values(|e: ZipEntry| e.entry_data())[0]);
                assert(e.entry_data() == all[k]);
                assert(all.take(k + 1).drop_last() =~= all.take(k));
                assert(all.take(k + 1).last() == all[k]);
                crate::text::lemma_map_values_remove0(pre, |e: ZipEntry| e.entry_data());
                assert(all.skip(k).skip(1) =~= all.skip(k + 1));
                assert(entries@.map_values(|e: ZipEntry| e.entry_data()) =~= all.skip(k + 1));
            }
            let image_ref = process_image(e.content.as_slice());
            let hash = match image_ref {
                ImageRef::Local { hash, original_path } => hash,
            };
            if !map_contains(&map, &hash) {
                map.push((hash, e.content));
                proof {
                    assert(map@.map_values(|p: (String, Vec<u8>)| (p.0@, p.1@)) =~= spec_image_map(
                        all.take(k + 1),
                    ));
                }
            }
            proof {
                k = k + 1;
            }
        }
        proof {
            assert(all.take(n as int) =~= all);
        }
        map
    }

    /// Parse each document entry: questions accumulate in entry order; a
    /// document that is not valid UTF-8 contributes one warning naming its
    /// path and nothing else, and its siblings are unaffected.
    fn process_markdown_files(&self, md_entries: Vec<ZipEntry>) -> (r: (Vec<Question>, Vec<String>))
        ensures
            r.0@.map_values(|q: Question| q@) == spec_zip_questions(
                md_entries@.map_values(|e: ZipEntry| e.entry_data()),
            ),
            r.1@.map_values(|w: String| w@) == spec_zip_warnings(
                md_entries@.map_values(|e: ZipEntry| e.entry_data()),
            ),
    {
        let ghost all = md_entries@.map_values(|e: ZipEntry| e.entry_data());
        let mut entries = md_entries;
        let mut questions: Vec<Question> = Vec::new();
        let mut warnings: Vec<String> = Vec::new();
        let ghost n = all.len();
        let ghost mut k: int = 0;
        while entries.len() > 0
            invariant
                n == all.len(),
                0 <= k,
                k + entries@.len() == n,
                entries@.map_values(|e: ZipEntry| e.entry_data()) =~= all.skip(k),
                questions@.map_values(|q: Question| q@) =~= spec_zip_questions(all.take(k)),
                warnings@.map_values(|w: String| w@) =~= spec_zip_warnings(all.take(k)),
            decreases entries@.len(),
        {
            let ghost pre = entries@;
            let e = entries.remove(0);
            proof {
                assert(e.entry_data() == pre.map_values(|e: ZipEntry| e.entry_data())[0]);
                assert(e.entry_data() == all[k]);
                assert(all.take(k + 1).drop_last() =~= all.take(k));
                assert(all.take(k + 1).last() == all[k]);
                crate::text::lemma_map_values_remove0(pre, |e: ZipEntry| e.entry_data());
                assert(all.skip(k).skip(1) =~= all.skip(k + 1));
                assert(entries@.map_values(|e: ZipEntry| e.entry_data()) =~= all.skip(k + 1));
            }
            match e.as_string() {
                Result::Ok(content) => {
                    let mut qs = parse_markdown(content.as_str());
                    let ghost qs_view = qs@.map_values(|q: Question| q@);
                    questions.append(&mut qs);
                    proof {
                        assert(questions@.map_values(|q: Question| q@) =~= spec_zip_questions(
                            all.take(k),
                        ) + qs_view);
                    }
                },
                Result::Err(_) => {
                    let warning = String::from_str("Failed to parse ").concat(e.path.as_str())
                        .concat(": invalid UTF-8");
                    warnings.push(warning);
                    proof {
                        assert(warnings@.map_values(|w: String| w@) =~= spec_zip_warnings(
                            all.take(k),
                        ).push(spec_doc_warning(all[k].path)));
                    }
                },
            }
            proof {
                k = k + 1;
            }
        }
        proof {
            assert(all.take(n as int) =~= all);
        }
        (questions, warnings)
    }

    /// Process one archive: extract, partition, fingerprint and deduplicate
    /// the images, parse the documents with per-document failure isolation.
    /// An unreadable container is a hard failure for the whole archive: no
    /// entries come back.
    pub fn process_zip(&self, zip_data: Vec<u8>) -> (r: Result<ZipProcessResult, ArchiveError>)
        ensures
            r is Ok <==> archive_entries_of(zip_data@) is Some,
            r is Ok ==> {
                let es = archive_entries_of(zip_data@)->0;
                &&& r->Ok_0.questions@.map_values(|q: Question| q@) == spec_zip_questions(
                    spec_doc_entries(es),
                )
                &&& r->Ok_0.images@.map_values(|p: (String, Vec<u8>)| (p.0@, p.1@))
                    == spec_image_map(spec_image_entries(es))
                &&& r->Ok_0.warnings@.map_values(|w: String| w@) == spec_zip_warnings(
                    spec_doc_entries(es),
                )
            },
    {
        let raw = match read_archive(&zip_data) {
            Result::Ok(v) => v,
            Result::Err(e) => {
                return Result::Err(e);
            },
        };
        let (docs, images) = Self::partition_entries(raw);
        let image_map = self.process_images(images);
        let (questions, warnings) = self.process_markdown_files(docs);
        Result::Ok(ZipProcessResult { questions, images: image_map, warnings })
    }
}

impl Default for ZipProcessor {
    /// A processor with the fallback worker cap.
    fn default() -> (r: Self)
        ensures
            r.workers() == DEFAULT_WORKERS,
    {
        ZipProcessor::new()
    }
}

proof fn lemma_image_map_keys_unique(imgs: Seq<EntryData>)
    ensures
        forall|k1: int, k2: int|
            0 <= k1 < k2 < spec_image_map(imgs).len() ==> spec_image_map(imgs)[k1].0
                != spec_image_map(imgs)[k2].0,
    decreases imgs.len(),
{
    if imgs.len() > 0 {
        lemma_image_map_keys_unique(imgs.drop_last());
        let prev = spec_image_map(imgs.drop_last());
        let m = spec_image_map(imgs);
        if !map_has_key(prev, spec_image_hash(imgs.last().content)) {
            assert forall|k1: int, k2: int| 0 <= k1 < k2 < m.len() implies m[k1].0 != m[k2].0 by {
                if k2 == m.len() - 1 {
                    assert(m[k1] == prev[k1]);
                    assert(!(prev[k1].0 == spec_image_hash(imgs.last().content)));
                }
            }
        }
    }
}

proof fn lemma_image_map_monotone(imgs: Seq<EntryData>, key: Seq<char>)
    requires
        map_has_key(spec_image_map(imgs.drop_last()), key),
        imgs.len() > 0,
    ensures
        map_has_key(spec_image_map(imgs), key),
{
    let prev = spec_image_map(imgs.drop_last());
    let i = choose|i: int| 0 <= i < prev.len() && prev[i].0 == key;
    if !map_has_key(prev, spec_image_hash(imgs.last().content)) {
        assert(spec_image_map(imgs)[i] == prev[i]);
    }
}

proof fn lemma_image_map_covers(imgs: Seq<EntryData>, a: int)
    requires
        0 <= a < imgs.len(),
    ensures
        map_has_key(spec_image_map(imgs), spec_image_hash(imgs[a].content)),
    decreases imgs.len(),
{
    let key = spec_image_hash(imgs[a].content);
    if a == imgs.len() - 1 {
        let prev = spec_image_map(imgs.drop_last());
        if map_has_key(prev, key) {
            assert(spec_image_map(imgs) == prev);
        } else {
            let m = spec_image_map(imgs);
            assert(m[m.len() - 1].0 == key);
        }
    } else {
        assert(imgs.drop_last()[a] == imgs[a]);
        lemma_image_map_covers(imgs.drop_last(), a);
        lemma_image_map_monotone(imgs, key);
    }
}

/// Deduplication: whenever two image entries (under any paths, at any
/// positions) carry identical bytes, the content-addressed image map holds
/// exactly one entry keyed by their common hash — it exists, and no key
/// occurs twice.
pub proof fn lemma_image_dedup(imgs: Seq<EntryData>, a: int, b: int)
    requires
        0 <= a < imgs.len(),
        0 <= b < imgs.len(),
        imgs[a].content == imgs[b].content,
    ensures
        map_has_key(spec_image_map(imgs), spec_image_hash(imgs[a].content)),
        spec_image_hash(imgs[a].content) == spec_image_hash(imgs[b].content),
        forall|k1: int, k2: int|
            0 <= k1 < k2 < spec_image_map(imgs).len() ==> spec_image_map(imgs)[k1].0
                != spec_image_map(imgs)[k2].0,
{
    lemma_image_map_covers(imgs, a);
    lemma_image_map_keys_unique(imgs);
}

} // verus!
