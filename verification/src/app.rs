//! The state of the calculator window: the counted files, their total, the
//! unit price as typed, the billing unit and the message to show next.

use vstd::prelude::*;
use crate::audio::{AudioFileInfo, FileView, views};
use crate::duration::{Duration, max_nanos};
use crate::formats::{extension_counts, extension_is_counted};
use crate::listing::{
    sum_nanos, has_path, distinct_paths, total_duration_of, contains_path, lemma_sum_concat,
    lemma_sort_keeps_sum, lemma_sort_keeps_members, lemma_sort_keeps_distinct,
};
use crate::order::{sort_by_name, is_sorted_by_name, sort_files, lemma_sort_by_name_sorted};
use crate::text::{clock_text, format_duration as clock_string};

verus! {

/// What was found out about one path the user handed in: whether it exists,
/// its extension and file name as the platform's path rules give them, and the
/// running time read from it (`None` where none could be read, or where it was
/// not read because the file is not counted anyway).
pub struct ScannedPath {
    pub path: String,
    pub exists: bool,
    pub extension: Option<String>,
    pub file_name: String,
    pub duration: Option<Duration>,
}

/// The extension as characters.
pub open spec fn ext_view(e: Option<String>) -> Option<Seq<char>> {
    match e {
        Some(s) => Some(s@),
        None => None,
    }
}

/// Whether the scanned path `c` is taken, given the files listed before
/// (`old`) and those taken earlier from the same batch (`prev`): it exists, its
/// extension is counted, its path is new to both, and a running time was read.
pub open spec fn admits(old: Seq<FileView>, prev: Seq<FileView>, c: ScannedPath) -> bool {
    &&& c.exists
    &&& extension_counts(ext_view(c.extension))
    &&& !has_path(old, c.path@)
    &&& !has_path(prev, c.path@)
    &&& c.duration is Some
}

/// The file a taken path becomes.
pub open spec fn found_file(c: ScannedPath) -> FileView {
    FileView { path: c.path@, name: c.file_name@, nanos: c.duration.unwrap()@ }
}

/// The files taken from a batch, in the order of the batch.
pub open spec fn accepted(old: Seq<FileView>, scanned: Seq<ScannedPath>) -> Seq<FileView>
    decreases scanned.len(),
{
    if scanned.len() == 0 {
        Seq::empty()
    } else {
        let prev = accepted(old, scanned.drop_last());
        if admits(old, prev, scanned.last()) {
            prev.push(found_file(scanned.last()))
        } else {
            prev
        }
    }
}

/// The list after a batch of new files is added: the new files in listing
/// order are put after the old ones, and the whole is put in listing order.
pub open spec fn merged(old: Seq<FileView>, new_files: Seq<FileView>) -> Seq<FileView> {
    sort_by_name(old + sort_by_name(new_files))
}

/// The state as the window shows it.
pub ghost struct AppView {
    pub files: Seq<FileView>,
    pub total: nat,
    pub price_input: Seq<char>,
    pub use_minute: bool,
    pub message: Option<(Seq<char>, bool)>,
}

/// Whether a list is as the window keeps it: in listing order, with no path
/// twice.
pub open spec fn well_listed(files: Seq<FileView>) -> bool {
    is_sorted_by_name(files) && distinct_paths(files)
}

/// What holds of the state at all times: the list is well listed and the
/// total is the sum of the listed running times.
pub open spec fn consistent(v: AppView) -> bool {
    well_listed(v.files) && v.total == sum_nanos(v.files)
}

/// Something the user did, or the outcome of work the window did for the user,
/// that changes the state.
pub enum UiEvent {
    /// The clear button was pressed.
    ClearRequested,
    /// The unit price field now holds this text.
    PriceEdited(String),
    /// A billing unit was chosen: per minute (`true`) or per hour (`false`).
    UnitChosen(bool),
    /// Registering the context menu ended so.
    ContextMenuAdded(Result<(), String>),
    /// Removing the context menu ended so.
    ContextMenuRemoved(Result<(), String>),
    /// Drawing the screenshot failed with this reason.
    ScreenshotFailed(String),
    /// The screenshot was drawn and handed to the clipboard, which took it
    /// (`true`) or refused it (`false`).
    ClipboardWritten(bool),
}

/// The message an event leaves to show, or `None` where it leaves the message
/// as it was.
pub open spec fn event_message(event: UiEvent) -> Option<(Seq<char>, bool)> {
    match event {
        UiEvent::ContextMenuAdded(Ok(())) => Some(("已添加到右键菜单！"@, true)),
        UiEvent::ContextMenuAdded(Err(e)) => Some((e@, false)),
        UiEvent::ContextMenuRemoved(Ok(())) => Some(("已移除右键菜单！"@, true)),
        UiEvent::ContextMenuRemoved(Err(e)) => Some((e@, false)),
        UiEvent::ScreenshotFailed(e) => Some(("截图失败: "@ + e@, false)),
        UiEvent::ClipboardWritten(true) => Some(("截图已复制到剪贴板！"@, true)),
        UiEvent::ClipboardWritten(false) => Some(("复制到剪贴板失败"@, false)),
        _ => None,
    }
}

/// The state after an event.
pub open spec fn after_event(s: AppView, event: UiEvent) -> AppView {
    match event {
        UiEvent::ClearRequested => AppView { files: Seq::empty(), total: 0, ..s },
        UiEvent::PriceEdited(p) => AppView { price_input: p@, ..s },
        UiEvent::UnitChosen(m) => AppView { use_minute: m, ..s },
        _ => AppView { message: event_message(event), ..s },
    }
}

/// The calculator's state.
pub struct AudioCalculatorApp {
    audio_files: Vec<AudioFileInfo>,
    total_duration: Duration,
    price_input: String,
    use_minute: bool,
    message: Option<(String, bool)>,
}

impl View for AudioCalculatorApp {
    type V = AppView;

    closed spec fn view(&self) -> AppView {
        AppView {
            files: views(self.audio_files@),
            total: self.total_duration@,
            price_input: self.price_input@,
            use_minute: self.use_minute,
            message: match self.message {
                Some((m, ok)) => Some((m@, ok)),
                None => None,
            },
        }
    }
}

impl AudioCalculatorApp {
    /// The files are listed in order without a path twice, and the total is
    /// their sum.
    #[verifier::type_invariant]
    spec fn inv(self) -> bool {
        &&& well_listed(views(self.audio_files@))
        &&& self.total_duration@ == sum_nanos(views(self.audio_files@))
    }

    /// The state of a freshly opened window: no files, unit price `100`, billed
    /// per hour, no message.
    pub fn new() -> (r: Self)
        ensures
            r@.files == Seq::<FileView>::empty(),
            r@.total == 0,
            r@.price_input == "100"@,
            !r@.use_minute,
            r@.message is None,
            consistent(r@),
    {
        let r = AudioCalculatorApp {
            audio_files: Vec::new(),
            total_duration: Duration::zero(),
            price_input: String::from_str("100"),
            use_minute: false,
            message: None,
        };
        assert(views(r.audio_files@) =~= Seq::<FileView>::empty());
        r
    }

    /// The listed files.
    pub fn audio_files(&self) -> (r: &Vec<AudioFileInfo>)
        ensures
            views(r@) == self@.files,
            well_listed(self@.files),
    {
        proof {
            use_type_invariant(self);
        }
        &self.audio_files
    }

    /// Their total running time.
    pub fn total_duration(&self) -> (r: Duration)
        ensures
            r@ == self@.total,
            self@.total == sum_nanos(self@.files),
    {
        proof {
            use_type_invariant(self);
        }
        self.total_duration
    }

    /// The unit price as typed.
    pub fn price_input(&self) -> (r: &String)
        ensures
            r@ == self@.price_input,
    {
        &self.price_input
    }

    /// Whether the price is per minute (else per hour).
    pub fn use_minute(&self) -> (r: bool)
        ensures
            r == self@.use_minute,
    {
        self.use_minute
    }

    /// Takes the message waiting to be shown, leaving none.
    pub fn take_message(&mut self) -> (r: Option<(String, bool)>)
        ensures
            final(self)@ == (AppView { message: None, ..old(self)@ }),
            match r {
                Some((m, ok)) => old(self)@.message == Some((m@, ok)),
                None => old(self)@.message is None,
            },
            consistent(final(self)@),
    {
        proof {
            use_type_invariant(&*self);
        }
        let mut m = None;
        std::mem::swap(&mut m, &mut self.message);
        m
    }

    /// The clock text `HH:MM:SS` of a running time.
    pub fn format_duration(duration: Duration) -> (r: String)
        ensures
            r@ == clock_text(duration@ / 1_000_000_000),
    {
        clock_string(duration)
    }

    /// The files a batch of scanned paths adds, in the order of the batch.
    pub fn select_new_files(&self, scanned: Vec<ScannedPath>) -> (r: Vec<AudioFileInfo>)
        ensures
            views(r@) == accepted(self@.files, scanned@),
    {
        let ghost old_files = views(self.audio_files@);
        let ghost orig = scanned@;
        let n = scanned.len();
        let mut rest = scanned;
        let mut out: Vec<AudioFileInfo> = Vec::new();
        let mut k: usize = 0;
        assert(orig.take(0) =~= Seq::<ScannedPath>::empty());
        assert(views(out@) =~= Seq::<FileView>::empty());
        while k < n
            invariant
                n == orig.len(),
                k <= n,
                old_files == views(self.audio_files@),
                rest@ == orig.subrange(k as int, n as int),
                views(out@) == accepted(old_files, orig.take(k as int)),
            decreases n - k,
        {
            let c = rest.remove(0);
            assert(c == orig[k as int]);
            assert(orig.take(k + 1).drop_last() =~= orig.take(k as int));
            assert(orig.take(k + 1).last() == c);
            let ghost prev = views(out@);
            if c.exists && extension_is_counted(&c.extension) && !contains_path(&self.audio_files, &c.path)
                && !contains_path(&out, &c.path) {
                match c.duration {
                    Some(d) => {
                        out.push(AudioFileInfo { file_path: c.path, file_name: c.file_name, duration: d });
                        assert(views(out@) =~= prev.push(found_file(orig[k as int])));
                    },
                    None => {},
                }
            }
            k = k + 1;
            assert(rest@ =~= orig.subrange(k as int, n as int));
        }
        assert(orig.take(n as int) =~= orig);
        out
    }

    /// Adds files that are new to the list and to each other, keeping the list
    /// in order.
    pub fn insert_new_files(&mut self, new_files: Vec<AudioFileInfo>)
        requires
            sum_nanos(old(self)@.files) + sum_nanos(views(new_files@)) <= max_nanos(),
            distinct_paths(views(new_files@)),
            forall|i: int|
                0 <= i < new_files@.len() ==> !has_path(old(self)@.files, #[trigger] new_files@[i].file_path@),
        ensures
            final(self)@ == (AppView {
                files: merged(old(self)@.files, views(new_files@)),
                total: sum_nanos(merged(old(self)@.files, views(new_files@))),
                ..old(self)@
            }),
            consistent(final(self)@),
    {
        proof {
            use_type_invariant(&*self);
        }
        let ghost old_view = self@;
        let ghost nv = views(new_files@);
        let mut sorted_new = sort_files(new_files);
        let mut taken = AudioCalculatorApp::new();
        std::mem::swap(self, &mut taken);
        proof {
            use_type_invariant(&taken);
        }
        let AudioCalculatorApp { audio_files, total_duration: _, price_input, use_minute, message } = taken;
        let mut all = audio_files;
        let ghost ov = views(all@);
        let ghost sv = views(sorted_new@);
        all.append(&mut sorted_new);
        let ghost cat = views(all@);
        proof {
            assert(cat =~= ov + sv);
            lemma_sort_keeps_sum(nv);
            lemma_sum_concat(ov, sv);
            lemma_sort_keeps_members(nv);
            lemma_sort_keeps_distinct(nv);
            assert forall|i: int, j: int|
                0 <= i < cat.len() && 0 <= j < cat.len() && i != j implies cat[i].path != cat[j].path by {
                if i < ov.len() && j >= ov.len() {
                    assert(nv.contains(sv[j - ov.len()]));
                    let m = choose|m: int| 0 <= m < nv.len() && nv[m] == sv[j - ov.len()];
                    assert(nv[m].path == new_files@[m].file_path@);
                } else if j < ov.len() && i >= ov.len() {
                    assert(nv.contains(sv[i - ov.len()]));
                    let m = choose|m: int| 0 <= m < nv.len() && nv[m] == sv[i - ov.len()];
                    assert(nv[m].path == new_files@[m].file_path@);
                    if cat[i].path == cat[j].path {
                        assert(ov[j].path == nv[m].path);
                    }
                }
            }
            lemma_sort_keeps_sum(cat);
            lemma_sort_keeps_distinct(cat);
            lemma_sort_by_name_sorted(cat);
        }
        let listed = sort_files(all);
        let total = total_duration_of(&listed);
        *self = AudioCalculatorApp { audio_files: listed, total_duration: total, price_input, use_minute, message };
    }

    /// Adds the files of a batch of scanned paths: each that exists, has a
    /// counted extension, is not listed yet nor earlier in the batch, and whose
    /// running time could be read. The new files are put in listing order
    /// after the old ones, the whole is put in listing order, and the total is
    /// summed again.
    pub fn add_files(&mut self, scanned: Vec<ScannedPath>)
        requires
            sum_nanos(old(self)@.files) + sum_nanos(accepted(old(self)@.files, scanned@)) <= max_nanos(),
        ensures
            final(self)@ == (AppView {
                files: merged(old(self)@.files, accepted(old(self)@.files, scanned@)),
                total: sum_nanos(merged(old(self)@.files, accepted(old(self)@.files, scanned@))),
                ..old(self)@
            }),
            consistent(final(self)@),
    {
        let new_files = self.select_new_files(scanned);
        proof {
            lemma_accepted_fresh(self@.files, scanned@);
            assert forall|i: int|
                0 <= i < new_files@.len() implies !has_path(self@.files, #[trigger] new_files@[i].file_path@) by {
                assert(views(new_files@)[i].path == new_files@[i].file_path@);
            }
        }
        self.insert_new_files(new_files);
    }

    /// Adds the files of a batch as `add_files` does, where their total
    /// running time fits in a `Duration`; otherwise (where `add_files` would
    /// overflow) leaves the state unchanged and returns `false`.
    pub fn try_add_files(&mut self, scanned: Vec<ScannedPath>) -> (r: bool)
        ensures
            r == (sum_nanos(old(self)@.files) + sum_nanos(accepted(old(self)@.files, scanned@)) <= max_nanos()),
            r ==> final(self)@ == (AppView {
                files: merged(old(self)@.files, accepted(old(self)@.files, scanned@)),
                total: sum_nanos(merged(old(self)@.files, accepted(old(self)@.files, scanned@))),
                ..old(self)@
            }),
            !r ==> final(self)@ == old(self)@,
            consistent(final(self)@),
    {
        proof {
            use_type_invariant(&*self);
        }
        let new_files = self.select_new_files(scanned);
        proof {
            lemma_accepted_fresh(self@.files, scanned@);
        }
        let ghost nv = views(new_files@);
        proof {
            assert forall|i: int|
                0 <= i < new_files@.len() implies !has_path(self@.files, #[trigger] new_files@[i].file_path@) by {
                assert(nv[i].path == new_files@[i].file_path@);
            }
        }
        let mut added: Option<Duration> = Some(Duration::zero());
        let mut i: usize = 0;
        assert(nv.take(0) =~= Seq::<FileView>::empty());
        while i < new_files.len()
            invariant
                nv == views(new_files@),
                i <= new_files@.len(),
                match added {
                    Some(t) => t@ == sum_nanos(nv.take(i as int)),
                    None => sum_nanos(nv) > max_nanos(),
                },
            decreases new_files@.len() - i,
        {
            proof {
                crate::listing::lemma_sum_take_next(nv, i as int);
                crate::listing::lemma_sum_prefix(nv, i + 1);
            }
            added = match added {
                Some(t) => t.checked_add(&new_files[i].duration),
                None => None,
            };
            i = i + 1;
        }
        assert(nv.take(i as int) =~= nv);
        let fits = match added {
            Some(t) => self.total_duration.checked_add(&t).is_some(),
            None => false,
        };
        if fits {
            self.insert_new_files(new_files);
            true
        } else {
            false
        }
    }

    /// Empties the list.
    pub fn clear_files(&mut self)
        ensures
            final(self)@ == (AppView { files: Seq::empty(), total: 0, ..old(self)@ }),
            consistent(final(self)@),
    {
        proof {
            use_type_invariant(&*self);
        }
        let mut taken = AudioCalculatorApp::new();
        std::mem::swap(self, &mut taken);
        let AudioCalculatorApp { audio_files: _, total_duration: _, price_input, use_minute, message } = taken;
        let r = AudioCalculatorApp {
            audio_files: Vec::new(),
            total_duration: Duration::zero(),
            price_input,
            use_minute,
            message,
        };
        assert(views(r.audio_files@) =~= Seq::<FileView>::empty());
        *self = r;
    }

    /// Applies an event.
    pub fn apply(&mut self, event: UiEvent)
        ensures
            final(self)@ == after_event(old(self)@, event),
            consistent(final(self)@),
    {
        proof {
            use_type_invariant(&*self);
        }
        match event {
            UiEvent::ClearRequested => self.clear_files(),
            UiEvent::PriceEdited(p) => {
                self.price_input = p;
            },
            UiEvent::UnitChosen(m) => {
                self.use_minute = m;
            },
            UiEvent::ContextMenuAdded(Ok(())) => {
                self.message = Some((String::from_str("已添加到右键菜单！"), true));
            },
            UiEvent::ContextMenuAdded(Err(e)) => {
                self.message = Some((e, false));
            },
            UiEvent::ContextMenuRemoved(Ok(())) => {
                self.message = Some((String::from_str("已移除右键菜单！"), true));
            },
            UiEvent::ContextMenuRemoved(Err(e)) => {
                self.message = Some((e, false));
            },
            UiEvent::ScreenshotFailed(e) => {
                let mut m = String::from_str("截图失败: ");
                m.append(e.as_str());
                self.message = Some((m, false));
            },
            UiEvent::ClipboardWritten(true) => {
                self.message = Some((String::from_str("截图已复制到剪贴板！"), true));
            },
            UiEvent::ClipboardWritten(false) => {
                self.message = Some((String::from_str("复制到剪贴板失败"), false));
            },
        }
    }
}

/// The files taken from a batch are new to the list and to each other.
pub proof fn lemma_accepted_fresh(old: Seq<FileView>, scanned: Seq<ScannedPath>)
    ensures
        distinct_paths(accepted(old, scanned)),
        forall|i: int|
            0 <= i < accepted(old, scanned).len() ==> !has_path(old, #[trigger] accepted(old, scanned)[i].path),
    decreases scanned.len(),
{
    if scanned.len() > 0 {
        lemma_accepted_fresh(old, scanned.drop_last());
        let prev = accepted(old, scanned.drop_last());
        let c = scanned.last();
        if admits(old, prev, c) {
            let r = prev.push(found_file(c));
            assert forall|i: int, j: int|
                0 <= i < r.len() && 0 <= j < r.len() && i != j implies r[i].path != r[j].path by {
                if i == prev.len() {
                    assert(!has_path(prev, c.path@));
                    assert(r[j] == prev[j]);
                    if r[i].path == r[j].path {
                        assert(prev[j].path == c.path@);
                    }
                } else if j == prev.len() {
                    assert(r[i] == prev[i]);
                    if r[i].path == r[j].path {
                        assert(prev[i].path == c.path@);
                    }
                } else {
                    assert(r[i] == prev[i]);
                    assert(r[j] == prev[j]);
                }
            }
            assert forall|i: int| 0 <= i < r.len() implies !has_path(old, #[trigger] r[i].path) by {
                if i < prev.len() {
                    assert(r[i] == prev[i]);
                }
            }
        }
    }
}

} // verus!
