//! The captures on disk: which ones are listed, and what may be done with each.

use vstd::prelude::*;

use crate::capture::hdr_png;
use crate::commands::after;
use crate::commands::uploads;
use crate::order;
use crate::paths;
use crate::text;

verus! {

/// A capture in the list.
#[derive(Debug)]
pub struct HistoryEntry {
    pub path: String,
    pub filename: String,
    pub size_bytes: u64,
    pub modified_unix: u64,
    pub is_gif: bool,
    pub is_mp4: bool,
    pub has_hdr: bool,
}

/// What the system tells of an entry of a directory. A name that is no text is
/// missing, and so is what could not be read of the file.
#[derive(Debug)]
pub struct DirEntry {
    pub path: String,
    pub name: Option<String>,
    /// The extension of a name that is no text, where the extension is.
    pub bare_extension: Option<String>,
    pub is_file: bool,
    pub size: Option<u64>,
    /// When it was last changed, in milliseconds since 1970, or nought where
    /// that is not known.
    pub modified: u64,
}

// ---- two directories as one --------------------------------------------------------------------

/// The names in a directory.
pub open spec fn names(dir: Seq<DirEntry>) -> Seq<Seq<char>>
    decreases dir.len(),
{
    if dir.len() == 0 {
        Seq::empty()
    } else {
        match dir.last().name {
            Some(n) => names(dir.drop_last()).push(n@),
            None => names(dir.drop_last()),
        }
    }
}

/// The entries of the history that come in: those with a name that stands
/// neither in the directory of the settings nor earlier in the history.
pub open spec fn fresh(output: Seq<Seq<char>>, history: Seq<DirEntry>) -> Seq<DirEntry>
    decreases history.len(),
{
    if history.len() == 0 {
        Seq::empty()
    } else {
        let rest = fresh(output, history.drop_last());
        match history.last().name {
            Some(n) => if output.contains(n@) || names(rest).contains(n@) {
                rest
            } else {
                rest.push(history.last())
            },
            None => rest,
        }
    }
}

/// The entries of both directories. A capture that stands in both counts once,
/// as it is in the directory of the settings.
pub open spec fn merged(output: Seq<DirEntry>, history: Seq<DirEntry>) -> Seq<DirEntry> {
    output + fresh(names(output), history)
}

// ---- entries that are captures -----------------------------------------------------------------

/// The extension is one of a capture.
pub open spec fn capture_extension(ext: Seq<char>) -> bool {
    ext == "png"@ || ext == "jpg"@ || ext == "jpeg"@ || ext == "gif"@ || ext == "webp"@ || ext
        == "bmp"@ || ext == "mp4"@
}

fn is_capture_extension(ext: &str) -> (r: bool)
    ensures
        r == capture_extension(ext@),
{
    text::same(ext, "png") || text::same(ext, "jpg") || text::same(ext, "jpeg") || text::same(
        ext,
        "gif",
    ) || text::same(ext, "webp") || text::same(ext, "bmp") || text::same(ext, "mp4")
}

/// The name of an entry, or nothing where it is no text.
pub open spec fn name_of(e: DirEntry) -> Seq<char> {
    match e.name {
        Some(n) => n@,
        None => Seq::empty(),
    }
}

/// The extension of an entry in lower case.
pub open spec fn extension_of(e: DirEntry) -> Seq<char> {
    match e.name {
        Some(n) => uploads::lower_extension(n@),
        None => match e.bare_extension {
            Some(x) => text::lowercase(x@),
            None => Seq::empty(),
        },
    }
}

/// The entry is a capture: a file that can be read, with the extension of one,
/// that is not the HDR file beside one.
pub open spec fn is_capture(e: DirEntry) -> bool {
    &&& e.is_file
    &&& capture_extension(extension_of(e))
    &&& !text::ends_with(name_of(e), ".hdr.png"@)
    &&& e.size is Some
}

/// The entry of the list tells of the capture, where `all` are the names in
/// both directories.
pub open spec fn tells(h: HistoryEntry, e: DirEntry, all: Seq<Seq<char>>) -> bool {
    &&& h.path@ == (if text::starts_with(e.path@, "\\\\?\\"@) {
        e.path@.skip(4)
    } else {
        e.path@
    })
    &&& h.filename@ == name_of(e)
    &&& e.size == Some(h.size_bytes)
    &&& h.modified_unix == e.modified
    &&& h.is_gif == (extension_of(e) == "gif"@)
    &&& h.is_mp4 == (extension_of(e) == "mp4"@)
    &&& h.has_hdr == (e.name is Some && all.contains(after::sidecar(name_of(e))))
}

/// The captures among the entries, in their order.
pub open spec fn captures(entries: Seq<DirEntry>) -> Seq<DirEntry>
    decreases entries.len(),
{
    if entries.len() == 0 {
        Seq::empty()
    } else if is_capture(entries.last()) {
        captures(entries.drop_last()).push(entries.last())
    } else {
        captures(entries.drop_last())
    }
}

/// When each capture was last changed.
pub open spec fn times(entries: Seq<DirEntry>) -> Seq<u64> {
    entries.map_values(|e: DirEntry| e.modified)
}

/// The list tells of the captures in the given order, the first thousand of
/// them.
pub open spec fn lists(
    r: Seq<HistoryEntry>,
    found: Seq<DirEntry>,
    all: Seq<Seq<char>>,
    order: Seq<usize>,
) -> bool {
    &&& r.len() == (if found.len() > 1000 {
        1000
    } else {
        found.len() as int
    })
    &&& forall|i: int| 0 <= i < r.len() ==> tells(#[trigger] r[i], found[order[i] as int], all)
}

fn plain(path: &str) -> (r: String)
    ensures
        r@ == (if text::starts_with(path@, "\\\\?\\"@) {
            path@.skip(4)
        } else {
            path@
        }),
{
    proof {
        reveal_strlit("\\\\?\\");
    }
    if text::has_prefix(path, "\\\\?\\") {
        let a = text::chars_of(path);
        let n: usize = a.len();
        let s = text::part_of(&a, 4, n);
        assert(s@ =~= path@.skip(4));
        s
    } else {
        path.to_owned()
    }
}

fn gather_names(dir: &[DirEntry]) -> (r: Vec<String>)
    ensures
        text::texts(r@) == names(dir@),
{
    let mut r: Vec<String> = Vec::new();
    for i in 0..dir.len()
        invariant
            text::texts(r@) == names(dir@.take(i as int)),
    {
        assert(dir@.take(i + 1).drop_last() =~= dir@.take(i as int));
        if let Some(n) = &dir[i].name {
            let ghost was = r@;
            r.push(n.clone());
            assert(text::texts(r@) =~= text::texts(was).push(n@));
        }
    }
    assert(dir@.take(dir@.len() as int) =~= dir@);
    r
}

/// What the list is made of: the places of entries, and the names that are
/// known.
#[derive(Debug)]
struct Gathered {
    /// Places in the history.
    places: Vec<usize>,
    names: Vec<String>,
}

spec fn picked(history: Seq<DirEntry>, places: Seq<usize>) -> Seq<DirEntry> {
    places.map_values(|p: usize| history[p as int])
}

proof fn lemma_names_of_fresh(output: Seq<Seq<char>>, history: Seq<DirEntry>)
    ensures
        forall|i: int|
            0 <= i < fresh(output, history).len() ==> (#[trigger] fresh(output, history)[i]).name
                is Some,
    decreases history.len(),
{
    if history.len() > 0 {
        lemma_names_of_fresh(output, history.drop_last());
    }
}

fn gather(output: &[DirEntry], history: &[DirEntry]) -> (g: Gathered)
    ensures
        forall|i: int| 0 <= i < g.places@.len() ==> (#[trigger] g.places@[i]) < history@.len(),
        picked(history@, g.places@) == fresh(names(output@), history@),
        text::texts(g.names@) == names(output@) + names(fresh(names(output@), history@)),
{
    let mut known = gather_names(output);
    let mut places: Vec<usize> = Vec::new();
    let ghost out = names(output@);
    assert(picked(history@, places@) =~= fresh(out, history@.take(0)));
    assert(text::texts(known@) =~= out + names(fresh(out, history@.take(0))));
    for i in 0..history.len()
        invariant
            out == names(output@),
            forall|k: int| 0 <= k < places@.len() ==> (#[trigger] places@[k]) < i,
            picked(history@, places@) == fresh(out, history@.take(i as int)),
            text::texts(known@) == out + names(fresh(out, history@.take(i as int))),
    {
        let ghost rest = fresh(out, history@.take(i as int));
        assert(history@.take(i + 1).drop_last() =~= history@.take(i as int));
        if let Some(n) = &history[i].name {
            proof {
                let all = out + names(rest);
                assert(all.contains(n@) <==> out.contains(n@) || names(rest).contains(n@)) by {
                    if out.contains(n@) {
                        let k = choose|k: int| 0 <= k < out.len() && out[k] == n@;
                        assert(all[k] == n@);
                    }
                    if names(rest).contains(n@) {
                        let k = choose|k: int| 0 <= k < names(rest).len() && names(rest)[k] == n@;
                        assert(all[out.len() + k] == n@);
                    }
                }
            }
            if !text::list_has(&known, n.as_str()) {
                let ghost was = known@;
                let ghost had = places@;
                places.push(i);
                known.push(n.clone());
                proof {
                    assert(text::texts(known@) =~= text::texts(was).push(n@));
                    assert(picked(history@, places@) =~= picked(history@, had).push(
                        history@[i as int],
                    ));
                    assert(rest.push(history@[i as int]).drop_last() =~= rest);
                    assert(names(rest.push(history@[i as int])) == names(rest).push(n@));
                    assert(out + names(rest).push(n@) =~= (out + names(rest)).push(n@));
                }
            }
        }
    }
    assert(history@.take(history@.len() as int) =~= history@);
    Gathered { places, names: known }
}

fn tell(e: &DirEntry, all: &Vec<String>) -> (r: Option<HistoryEntry>)
    ensures
        r is Some <==> is_capture(*e),
        r matches Some(h) ==> tells(h, *e, text::texts(all@)),
{
    if !e.is_file {
        return None;
    }
    let size: u64 = match e.size {
        Some(n) => n,
        None => return None,
    };
    let ext = match &e.name {
        Some(n) => uploads::extension_of(n.as_str()),
        None => match &e.bare_extension {
            Some(x) => x.as_str().to_lowercase(),
            None => {
                let s = String::new();
                assert(s@ =~= Seq::<char>::empty());
                s
            },
        },
    };
    let filename = match &e.name {
        Some(n) => n.clone(),
        None => {
            let s = String::new();
            assert(s@ =~= Seq::<char>::empty());
            s
        },
    };
    if !is_capture_extension(ext.as_str()) || text::has_suffix(filename.as_str(), ".hdr.png") {
        return None;
    }
    let has_hdr = match &e.name {
        Some(n) => text::list_has(all, after::sidecar_name(n.as_str()).as_str()),
        None => false,
    };
    Some(
        HistoryEntry {
            path: plain(e.path.as_str()),
            filename,
            size_bytes: size,
            modified_unix: e.modified,
            is_gif: text::same(ext.as_str(), "gif"),
            is_mp4: text::same(ext.as_str(), "mp4"),
            has_hdr,
        },
    )
}

fn copy_entry(h: &HistoryEntry) -> (r: HistoryEntry)
    ensures
        r == *h,
{
    HistoryEntry {
        path: h.path.clone(),
        filename: h.filename.clone(),
        size_bytes: h.size_bytes,
        modified_unix: h.modified_unix,
        is_gif: h.is_gif,
        is_mp4: h.is_mp4,
        has_hdr: h.has_hdr,
    }
}

/// The captures of both directories, the newest first, a thousand at most.
/// Captures of one moment keep their order.
pub fn list_captures(output: &[DirEntry], history: &[DirEntry]) -> (r: Vec<HistoryEntry>)
    ensures
        ({
            let entries = merged(output@, history@);
            let found = captures(entries);
            exists|order: Seq<usize>|
                order::is_newest_first(times(found), order) && #[trigger] lists(
                    r@,
                    found,
                    names(output@) + names(fresh(names(output@), history@)),
                    order,
                )
        }),
{
    let g = gather(output, history);
    let ghost all = text::texts(g.names@);
    let ghost entries = merged(output@, history@);
    let mut told: Vec<HistoryEntry> = Vec::new();
    let mut keys: Vec<u64> = Vec::new();
    let n: usize = output.len();
    for i in 0..n
        invariant
            n == output@.len(),
            all == text::texts(g.names@),
            told@.len() == keys@.len(),
            told@.len() == captures(output@.take(i as int)).len(),
            forall|k: int|
                0 <= k < told@.len() ==> tells(
                    #[trigger] told@[k],
                    captures(output@.take(i as int))[k],
                    all,
                ) && keys@[k] == told@[k].modified_unix,
    {
        assert(output@.take(i + 1).drop_last() =~= output@.take(i as int));
        if let Some(h) = tell(&output[i], &g.names) {
            keys.push(h.modified_unix);
            told.push(h);
        }
    }
    let m: usize = g.places.len();
    assert(output@.take(n as int) =~= output@);
    assert(entries.take(n as int) =~= output@);
    for i in 0..m
        invariant
            n == output@.len(),
            m == g.places@.len(),
            all == text::texts(g.names@),
            entries == merged(output@, history@),
            forall|k: int| 0 <= k < m ==> (#[trigger] g.places@[k]) < history@.len(),
            picked(history@, g.places@) == fresh(names(output@), history@),
            told@.len() == keys@.len(),
            told@.len() == captures(entries.take(n + i)).len(),
            forall|k: int|
                0 <= k < told@.len() ==> tells(
                    #[trigger] told@[k],
                    captures(entries.take(n + i))[k],
                    all,
                ) && keys@[k] == told@[k].modified_unix,
    {
        let e = &history[g.places[i]];
        proof {
            assert(picked(history@, g.places@)[i as int] == *e);
            assert(entries[n + i] == *e);
            assert(entries.take(n + i + 1).drop_last() =~= entries.take(n + i));
        }
        if let Some(h) = tell(e, &g.names) {
            keys.push(h.modified_unix);
            told.push(h);
        }
    }
    proof {
        assert(fresh(names(output@), history@).len() == m) by {
            assert(picked(history@, g.places@).len() == m);
        }
        assert(entries.take(n + m) =~= entries);
    }
    let ghost found = captures(entries);
    assert(keys@ =~= times(found)) by {
        assert forall|k: int| 0 <= k < keys@.len() implies keys@[k] == times(found)[k] by {
            assert(tells(told@[k], found[k], all));
        }
    }
    let by_time = order::newest_first(&keys);
    let count: usize = if by_time.len() > 1000 {
        1000
    } else {
        by_time.len()
    };
    let mut r: Vec<HistoryEntry> = Vec::new();
    for i in 0..count
        invariant
            count <= by_time@.len(),
            order::lists_all(by_time@, told@.len() as int),
            told@.len() == found.len(),
            forall|k: int| 0 <= k < told@.len() ==> tells(#[trigger] told@[k], found[k], all),
            r@.len() == i,
            forall|k: int|
                0 <= k < i ==> tells(#[trigger] r@[k], found[by_time@[k] as int], all),
    {
        let h = &told[by_time[i]];
        assert(tells(*h, found[by_time@[i as int] as int], all));
        r.push(copy_entry(h));
    }
    assert(lists(r@, found, all, by_time@));
    r
}

/// A capture that stands in both directories is listed once: no name comes
/// twice, where none comes twice in the directory of the settings.
pub proof fn lemma_no_capture_is_listed_twice(output: Seq<Seq<char>>, history: Seq<DirEntry>)
    requires
        output.no_duplicates(),
    ensures
        (output + names(fresh(output, history))).no_duplicates(),
    decreases history.len(),
{
    if history.len() > 0 {
        lemma_no_capture_is_listed_twice(output, history.drop_last());
        let rest = fresh(output, history.drop_last());
        let now = fresh(output, history);
        let was = output + names(rest);
        if let Some(n) = history.last().name {
            if !output.contains(n@) && !names(rest).contains(n@) {
                assert(now.drop_last() =~= rest);
                assert(output + names(now) =~= was.push(n@));
                assert forall|k: int| 0 <= k < was.len() implies was[k] != n@ by {
                    if k < output.len() {
                        assert(output.contains(output[k]));
                    } else {
                        assert(names(rest).contains(names(rest)[k - output.len()]));
                    }
                }
            }
        }
    }
}

// ---- what may be done with a capture -----------------------------------------------------------

/// The path lies in the directory of the settings or in the history. A
/// directory that there is not is missing.
pub open spec fn allowed(
    path: Seq<char>,
    output: Option<Seq<char>>,
    history: Option<Seq<char>>,
    sep: char,
) -> bool {
    (output matches Some(o) && paths::below(path, o, sep)) || (history matches Some(h)
        && paths::below(path, h, sep))
}

proof fn lemma_captures_are_captures(entries: Seq<DirEntry>)
    ensures
        forall|i: int|
            0 <= i < captures(entries).len() ==> is_capture(#[trigger] captures(entries)[i]),
    decreases entries.len(),
{
    if entries.len() > 0 {
        let rest = captures(entries.drop_last());
        lemma_captures_are_captures(entries.drop_last());
        assert forall|i: int| 0 <= i < captures(entries).len() implies is_capture(
            #[trigger] captures(entries)[i],
        ) by {
            if i < rest.len() {
                assert(captures(entries)[i] == rest[i]);
            }
        }
    }
}

/// The HDR file beside a capture is never listed as a capture of its own.
pub proof fn lemma_sidecars_are_not_listed(
    r: Seq<HistoryEntry>,
    entries: Seq<DirEntry>,
    all: Seq<Seq<char>>,
    order: Seq<usize>,
    i: int,
)
    requires
        order::is_newest_first(times(captures(entries)), order),
        lists(r, captures(entries), all, order),
        0 <= i < r.len(),
    ensures
        !text::ends_with(r[i].filename@, ".hdr.png"@),
{
    lemma_captures_are_captures(entries);
    assert(tells(r[i], captures(entries)[order[i] as int], all));
}

/// A file with the mark that is written into HDR captures counts as one, so that
/// the editor can warn of it.
pub proof fn lemma_written_hdr_is_recognised(
    bytes: Seq<u8>,
    transfer: hdr_png::HdrTransfer,
    info: hdr_png::CicpInfo,
)
    requires
        hdr_png::find_cicp(bytes) == Some(info),
        info.transfer == hdr_png::cicp_of(transfer)[1],
    ensures
        holds_hdr(bytes),
{
}

/// Whether the program may touch the path: it lies in the directory of the
/// settings or in the history. The paths are canonical ones.
pub fn is_path_allowed(path: &str, output: Option<&str>, history: Option<&str>, sep: char) -> (r:
    bool)
    ensures
        r == allowed(path@, text::opt(output), text::opt(history), sep),
{
    if let Some(o) = output {
        if paths::lies_below(path, o, sep) {
            return true;
        }
    }
    if let Some(h) = history {
        return paths::lies_below(path, h, sep);
    }
    false
}

/// Why something is not done with a capture.
#[derive(Clone, Copy, PartialEq, Eq, Structural, Debug)]
pub enum CaptureFault {
    /// The file is in none of the directories that may be used.
    Outside,
    /// The same, where a capture is shown or edited.
    OutsideCaptures,
    /// A recording cannot be edited.
    Recording,
    Empty,
    TooLarge,
}

impl CaptureFault {
    /// What is said of it.
    pub fn message(&self) -> (r: &'static str)
        ensures
            r@ == (match *self {
                CaptureFault::Outside => "Path is outside the allowed directories"@,
                CaptureFault::OutsideCaptures => "Path is outside the allowed capture directories"@,
                CaptureFault::Recording => {
                    "Recordings can't be edited — the editor would flatten the animation"@
                },
                CaptureFault::Empty => "Image data is empty"@,
                CaptureFault::TooLarge => "Image too large to save"@,
            }),
    {
        match *self {
            CaptureFault::Outside => "Path is outside the allowed directories",
            CaptureFault::OutsideCaptures => "Path is outside the allowed capture directories",
            CaptureFault::Recording => {
                "Recordings can't be edited — the editor would flatten the animation"
            },
            CaptureFault::Empty => "Image data is empty",
            CaptureFault::TooLarge => "Image too large to save",
        }
    }
}

/// The capture is a recording.
pub open spec fn is_recording(name: Seq<char>) -> bool {
    let ext = uploads::lower_extension(name);
    ext == "gif"@ || ext == "mp4"@
}

fn find_recording(name: &str) -> (r: bool)
    ensures
        r == is_recording(name@),
{
    let ext = uploads::extension_of(name);
    text::same(ext.as_str(), "gif") || text::same(ext.as_str(), "mp4")
}

/// Which files go when a capture is deleted: the HDR file beside it first, unless
/// the capture is itself that file.
pub fn delete_capture(name: &str, path_allowed: bool) -> (r: Result<Option<String>, CaptureFault>)
    ensures
        match r {
            Ok(s) => path_allowed && text::opt_owned(s) == (if after::sidecar(name@) != name@ {
                Some(after::sidecar(name@))
            } else {
                None
            }),
            Err(f) => !path_allowed && f == CaptureFault::Outside,
        },
{
    if !path_allowed {
        return Err(CaptureFault::Outside);
    }
    let s = after::sidecar_name(name);
    if text::same(s.as_str(), name) {
        Ok(None)
    } else {
        Ok(Some(s))
    }
}

/// How a capture goes on the clipboard.
#[derive(Clone, Copy, PartialEq, Eq, Structural, Debug)]
pub enum CopyKind {
    /// The file itself, or its path as text where that fails.
    File,
    /// The image.
    Image,
}

/// How a capture goes on the clipboard. A recording goes as a file.
pub fn copy_capture_to_clipboard(name: &str, path_allowed: bool) -> (r: Result<
    CopyKind,
    CaptureFault,
>)
    ensures
        r == (if !path_allowed {
            Err::<CopyKind, CaptureFault>(CaptureFault::Outside)
        } else if is_recording(name@) {
            Ok(CopyKind::File)
        } else {
            Ok(CopyKind::Image)
        }),
{
    if !path_allowed {
        Err(CaptureFault::Outside)
    } else if find_recording(name) {
        Ok(CopyKind::File)
    } else {
        Ok(CopyKind::Image)
    }
}

/// Whether a capture is opened in the editor.
pub fn open_editor(name: &str, path_allowed: bool) -> (r: Result<(), CaptureFault>)
    ensures
        r == (if !path_allowed {
            Err::<(), CaptureFault>(CaptureFault::OutsideCaptures)
        } else if is_recording(name@) {
            Err(CaptureFault::Recording)
        } else {
            Ok(())
        }),
{
    if !path_allowed {
        Err(CaptureFault::OutsideCaptures)
    } else if find_recording(name) {
        Err(CaptureFault::Recording)
    } else {
        Ok(())
    }
}

/// The files that take part when an edited image is saved.
#[derive(Debug)]
pub struct EditPlan {
    /// Written first, and then renamed.
    pub staging: String,
    /// Shows what the image was before, and goes.
    pub sidecar: String,
}

/// How an edited image is saved under the name. `len` is its size in bytes.
pub fn save_edited_image(name: &str, parent_allowed: bool, len: u64) -> (r: Result<
    EditPlan,
    CaptureFault,
>)
    ensures
        if !parent_allowed {
            r matches Err(f) && f == CaptureFault::OutsideCaptures
        } else if len == 0 {
            r matches Err(f) && f == CaptureFault::Empty
        } else if len > uploads::MAX_UPLOAD_BYTES {
            r matches Err(f) && f == CaptureFault::TooLarge
        } else {
            r matches Ok(p) && p.staging@ == "."@ + name@ + ".editing.tmp"@ && p.sidecar@
                == after::sidecar(name@)
        },
{
    if !parent_allowed {
        return Err(CaptureFault::OutsideCaptures);
    }
    if len == 0 {
        return Err(CaptureFault::Empty);
    }
    if len > uploads::MAX_UPLOAD_BYTES {
        return Err(CaptureFault::TooLarge);
    }
    let mut staging = String::from_str(".");
    staging.append(name);
    staging.append(".editing.tmp");
    Ok(EditPlan { staging, sidecar: after::sidecar_name(name) })
}

/// The file holds brightness beyond the common range: its mark says PQ or HLG.
pub open spec fn holds_hdr(bytes: Seq<u8>) -> bool {
    match hdr_png::find_cicp(bytes) {
        Some(info) => info.transfer == 16 || info.transfer == 18,
        None => false,
    }
}

/// Whether a capture holds brightness beyond the common range, which editing
/// would flatten.
pub fn is_hdr_capture(bytes: &[u8]) -> (r: bool)
    ensures
        r == holds_hdr(bytes@),
{
    match hdr_png::parse_cicp(bytes) {
        Some(info) => info.is_hdr(),
        None => false,
    }
}

/// Whether a capture is shown in its directory.
pub fn open_in_explorer(path_allowed: bool) -> (r: Result<(), CaptureFault>)
    ensures
        r == (if path_allowed {
            Ok::<(), CaptureFault>(())
        } else {
            Err(CaptureFault::OutsideCaptures)
        }),
{
    if path_allowed {
        Ok(())
    } else {
        Err(CaptureFault::OutsideCaptures)
    }
}

// ---- laws --------------------------------------------------------------------------------------

proof fn lemma_found_captures(entries: Seq<DirEntry>)
    ensures
        forall|i: int|
            0 <= i < captures(entries).len() ==> is_capture(#[trigger] captures(entries)[i])
                && entries.contains(captures(entries)[i]),
        forall|j: int|
            0 <= j < entries.len() && is_capture(#[trigger] entries[j]) ==> captures(
                entries,
            ).contains(entries[j]),
    decreases entries.len(),
{
    if entries.len() > 0 {
        let rest = entries.drop_last();
        let all = captures(entries);
        lemma_found_captures(rest);
        assert forall|i: int| 0 <= i < all.len() implies is_capture(#[trigger] all[i])
            && entries.contains(all[i]) by {
            if i < captures(rest).len() {
                assert(all[i] == captures(rest)[i]);
                assert(rest.contains(captures(rest)[i]));
                let k = choose|k: int| 0 <= k < rest.len() && rest[k] == captures(rest)[i];
                assert(entries[k] == all[i]);
            } else {
                assert(entries[entries.len() - 1] == all[i]);
            }
        }
        assert forall|j: int| 0 <= j < entries.len() && is_capture(
            #[trigger] entries[j],
        ) implies all.contains(entries[j]) by {
            if j < entries.len() - 1 {
                assert(rest[j] == entries[j]);
                assert(captures(rest).contains(rest[j]));
                let k = choose|k: int| 0 <= k < captures(rest).len() && captures(rest)[k] == rest[j];
                assert(all[k] == entries[j]);
            } else {
                assert(all[captures(rest).len() as int] == entries[j]);
            }
        }
    }
}

/// The list holds a thousand captures at most, the newest first.
pub proof fn lemma_list_is_newest_first(
    output: &[DirEntry],
    history: &[DirEntry],
    r: Vec<HistoryEntry>,
    i: int,
    j: int,
)
    requires
        call_ensures(list_captures, (output, history), r),
        0 <= i < j < r@.len(),
    ensures
        r@.len() <= 1000,
        r@[i].modified_unix >= r@[j].modified_unix,
{
    let found = captures(merged(output@, history@));
    let all = names(output@) + names(fresh(names(output@), history@));
    let order = choose|order: Seq<usize>|
        order::is_newest_first(times(found), order) && #[trigger] lists(r@, found, all, order);
    assert(tells(r@[i], found[order[i] as int], all));
    assert(tells(r@[j], found[order[j] as int], all));
    assert(order::newer(times(found), order[i], order[j]));
}

/// Each entry of the list tells of a file in one of the two directories: its
/// size, when it was changed, and whether it is a recording.
pub proof fn lemma_listed_captures_are_files(
    output: &[DirEntry],
    history: &[DirEntry],
    r: Vec<HistoryEntry>,
    i: int,
)
    requires
        call_ensures(list_captures, (output, history), r),
        0 <= i < r@.len(),
    ensures
        exists|e: DirEntry|
            #[trigger] (output@ + fresh(names(output@), history@)).contains(e) && e.is_file && e.size
                == Some(r@[i].size_bytes) && e.modified == r@[i].modified_unix && (
            e.name matches Some(n) ==> r@[i].filename@ == n@),
        !text::ends_with(r@[i].filename@, ".hdr.png"@),
        !(r@[i].is_gif && r@[i].is_mp4),
{
    let entries = merged(output@, history@);
    let found = captures(entries);
    let all = names(output@) + names(fresh(names(output@), history@));
    lemma_found_captures(entries);
    let order = choose|order: Seq<usize>|
        order::is_newest_first(times(found), order) && #[trigger] lists(r@, found, all, order);
    assert(tells(r@[i], found[order[i] as int], all));
    let e = found[order[i] as int];
    assert(is_capture(e) && entries.contains(e));
    reveal_strlit("gif");
    reveal_strlit("mp4");
    assert("gif"@[0] == 'g' && "mp4"@[0] == 'm');
    assert((output@ + fresh(names(output@), history@)).contains(e));
}

/// Every capture of the directory of the settings is listed, where the list is
/// not full.
pub proof fn lemma_captures_are_listed(
    output: &[DirEntry],
    history: &[DirEntry],
    r: Vec<HistoryEntry>,
    k: int,
    n: String,
    ext: String,
)
    requires
        call_ensures(list_captures, (output, history), r),
        r@.len() < 1000,
        0 <= k < output@.len(),
        output@[k].is_file,
        output@[k].size is Some,
        output@[k].name == Some(n),
        ext@ == uploads::lower_extension(n@),
        ext@ == "png"@ || ext@ == "jpg"@ || ext@ == "jpeg"@ || ext@ == "gif"@ || ext@ == "webp"@
            || ext@ == "bmp"@ || ext@ == "mp4"@,
        !text::ends_with(n@, ".hdr.png"@),
    ensures
        exists|i: int|
            0 <= i < r@.len() && (#[trigger] r@[i]).filename@ == n@ && r@[i].is_gif == (ext@
                == "gif"@) && r@[i].is_mp4 == (ext@ == "mp4"@),
{
    let entries = merged(output@, history@);
    let found = captures(entries);
    let all = names(output@) + names(fresh(names(output@), history@));
    lemma_found_captures(entries);
    let order = choose|order: Seq<usize>|
        order::is_newest_first(times(found), order) && #[trigger] lists(r@, found, all, order);
    assert(entries[k] == output@[k]);
    assert(is_capture(entries[k]));
    assert(found.contains(entries[k]));
    let p = choose|p: int| 0 <= p < found.len() && found[p] == entries[k];
    assert(r@.len() == found.len());
    assert(r.len() == found.len());
    assert(order::lists_all(order, found.len() as int));
    assert(order.contains(p as usize));
    let i = choose|i: int| 0 <= i < order.len() && order[i] == p as usize;
    assert(tells(r@[i], found[order[i] as int], all));
}

/// The program touches only what lies below one of the two directories.
pub proof fn lemma_only_own_files_are_touched(
    path: &str,
    output: Option<&str>,
    history: Option<&str>,
    sep: char,
    r: bool,
    dir: Seq<char>,
    rest: Seq<char>,
)
    requires
        call_ensures(is_path_allowed, (path, output, history, sep), r),
        dir.len() > 0,
        dir.last() != sep,
    ensures
        path@ == dir.push(sep) + rest && ((output matches Some(o) && o@ == dir) || (
        history matches Some(h) && h@ == dir)) ==> r,
        output is None && history is None ==> !r,
        output is None && (history matches Some(h) && h@ == dir) && path@.len() > dir.len()
            && path@[dir.len() as int] != sep ==> !r,
{
    assert(text::trim_end_of(dir, sep) == dir);
    if path@ == dir.push(sep) + rest {
        assert(path@.take((dir.len() + 1) as int) =~= dir.push(sep));
    }
    if text::starts_with(path@, dir.push(sep)) {
        assert(path@.take((dir.len() + 1) as int)[dir.len() as int] == sep);
    }
}

/// With a capture goes the HDR file beside it, which has the name of the capture
/// up to its extension; the HDR file itself goes alone.
pub proof fn lemma_hdr_file_goes_with_its_capture(
    name: &str,
    stem: String,
    r: Result<Option<String>, CaptureFault>,
    refused: Result<Option<String>, CaptureFault>,
)
    requires
        call_ensures(delete_capture, (name, true), r),
        call_ensures(delete_capture, (name, false), refused),
        call_ensures(paths::file_stem, (name,), stem),
    ensures
        refused is Err,
        r is Ok,
        name@ != stem@ + ".hdr.png"@ ==> (r matches Ok(Some(s)) && s@ == stem@ + ".hdr.png"@),
        name@ == stem@ + ".hdr.png"@ ==> (r matches Ok(s) && s is None),
{
}

/// A recording is copied as a file and never edited; an image is copied as an
/// image and can be.
pub proof fn lemma_recordings_are_not_edited(
    name: &str,
    ext: String,
    copied: Result<CopyKind, CaptureFault>,
    edited: Result<(), CaptureFault>,
)
    requires
        call_ensures(uploads::extension_of, (name,), ext),
        call_ensures(copy_capture_to_clipboard, (name, true), copied),
        call_ensures(open_editor, (name, true), edited),
    ensures
        copied == Ok::<CopyKind, CaptureFault>(CopyKind::File) <==> ext@ == "gif"@ || ext@
            == "mp4"@,
        copied == Ok::<CopyKind, CaptureFault>(CopyKind::Image) <==> ext@ != "gif"@ && ext@
            != "mp4"@,
        edited is Err <==> ext@ == "gif"@ || ext@ == "mp4"@,
{
}

/// Nothing is done with a file elsewhere.
pub proof fn lemma_files_elsewhere_stay(
    name: &str,
    len: u64,
    copied: Result<CopyKind, CaptureFault>,
    edited: Result<(), CaptureFault>,
    saved: Result<EditPlan, CaptureFault>,
    shown: Result<(), CaptureFault>,
)
    requires
        call_ensures(copy_capture_to_clipboard, (name, false), copied),
        call_ensures(open_editor, (name, false), edited),
        call_ensures(save_edited_image, (name, false, len), saved),
        call_ensures(open_in_explorer, (false,), shown),
    ensures
        copied is Err && edited is Err && saved is Err && shown is Err,
{
}

/// An edited image of one byte to a hundred mebibytes is saved: under a hidden
/// name first, and the HDR file that shows what it was before goes.
pub proof fn lemma_edited_images_are_staged(
    name: &str,
    len: u64,
    stem: String,
    r: Result<EditPlan, CaptureFault>,
)
    requires
        call_ensures(save_edited_image, (name, true, len), r),
        call_ensures(paths::file_stem, (name,), stem),
    ensures
        r is Ok <==> 1 <= len <= 100 * 1024 * 1024,
        r matches Ok(p) ==> p.staging@ == "."@ + name@ + ".editing.tmp"@ && p.sidecar@ == stem@
            + ".hdr.png"@,
{
}

/// A file holds brightness beyond the common range where its mark says PQ or HLG,
/// which are 16 and 18.
pub proof fn lemma_marked_files_hold_hdr(bytes: &[u8], r: bool, mark: Option<hdr_png::CicpInfo>)
    requires
        call_ensures(is_hdr_capture, (bytes,), r),
        call_ensures(hdr_png::parse_cicp, (bytes,), mark),
    ensures
        r <==> (mark matches Some(m) && (m.transfer == 16 || m.transfer == 18)),
{
}

} // verus!
