//! What the library promises over all inputs: adding the same batch twice,
//! listing order and its stability, the counted formats, the registry values
//! of the context menu, the window's events, the place of the picture's
//! footer, and text that reads back to its numbers.

use vstd::prelude::*;
use crate::app::{accepted, admits, merged, found_file, ScannedPath};
use crate::audio::FileView;
use crate::text::{decimal, digit, padded2};
use crate::listing::{has_path, lemma_sort_keeps_members};
use crate::app::{after_event, AppView, UiEvent};
use crate::casefold::lowercase;
use crate::formats::{extension_counts, is_supported_ext};
use crate::screenshot::{screenshot_fits, screenshot_ops, DrawView};
use crate::shell::{context_menu_steps, StepView};
use crate::order::{
    insert_pos, is_sorted_by_name, sort_by_name, sort_key, chars_le, lemma_sort_by_name_sorted,
    lemma_insert_sorted_sorted, lemma_chars_le_refl,
};

verus! {

/// Putting a list that is already in listing order into listing order leaves
/// it as it is.
pub proof fn lemma_sorted_is_fixed(s: Seq<FileView>)
    requires
        is_sorted_by_name(s),
    ensures
        sort_by_name(s) == s,
    decreases s.len(),
{
    if s.len() > 0 {
        let t = s.drop_last();
        assert(is_sorted_by_name(t));
        lemma_sorted_is_fixed(t);
        if t.len() > 0 {
            assert(chars_le(sort_key(t.last()), sort_key(s.last())));
        }
        assert(insert_pos(t, sort_key(s.last())) == t.len());
        assert(t.insert(t.len() as int, s.last()) =~= s);
    }
}

/// A file taken from a batch was earlier in the batch.
proof fn lemma_accepted_prefix(old: Seq<FileView>, s: Seq<ScannedPath>, p: Seq<char>)
    requires
        s.len() > 0,
        has_path(accepted(old, s.drop_last()), p),
    ensures
        has_path(accepted(old, s), p),
{
    let prev = accepted(old, s.drop_last());
    if admits(old, prev, s.last()) {
        let i = choose|i: int| 0 <= i < prev.len() && #[trigger] prev[i].path == p;
        assert(prev.push(found_file(s.last()))[i].path == p);
    }
}

/// Taking a batch again, against a list that holds every path the first
/// taking listed or took, takes nothing.
proof fn lemma_accepted_again_empty(old: Seq<FileView>, listed: Seq<FileView>, s: Seq<ScannedPath>)
    requires
        forall|p: Seq<char>| has_path(old, p) || has_path(accepted(old, s), p) ==> has_path(listed, p),
    ensures
        accepted(listed, s) == Seq::<FileView>::empty(),
    decreases s.len(),
{
    if s.len() > 0 {
        assert forall|p: Seq<char>|
            has_path(old, p) || has_path(accepted(old, s.drop_last()), p) implies has_path(listed, p) by {
            if has_path(accepted(old, s.drop_last()), p) {
                lemma_accepted_prefix(old, s, p);
            }
        }
        lemma_accepted_again_empty(old, listed, s.drop_last());
        let c = s.last();
        let prev_old = accepted(old, s.drop_last());
        if admits(listed, Seq::empty(), c) {
            if admits(old, prev_old, c) {
                let r = prev_old.push(found_file(c));
                assert(r[r.len() - 1].path == c.path@);
                assert(has_path(accepted(old, s), c.path@));
            }
            assert(has_path(listed, c.path@));
        }
    }
}

/// `has_path` over two lists joined.
proof fn lemma_has_path_concat(a: Seq<FileView>, b: Seq<FileView>, p: Seq<char>)
    ensures
        has_path(a + b, p) <==> (has_path(a, p) || has_path(b, p)),
{
    if has_path(a, p) {
        let i = choose|i: int| 0 <= i < a.len() && #[trigger] a[i].path == p;
        assert((a + b)[i].path == p);
    }
    if has_path(b, p) {
        let i = choose|i: int| 0 <= i < b.len() && #[trigger] b[i].path == p;
        assert((a + b)[a.len() + i].path == p);
    }
    if has_path(a + b, p) {
        let i = choose|i: int| 0 <= i < (a + b).len() && #[trigger] (a + b)[i].path == p;
        if i < a.len() {
            assert(a[i].path == p);
        } else {
            assert(b[i - a.len()].path == p);
        }
    }
}

/// After a batch is added, adding the same batch again takes no file and
/// leaves the list as it is.
pub proof fn lemma_add_twice(old: Seq<FileView>, scanned: Seq<ScannedPath>)
    ensures
        accepted(merged(old, accepted(old, scanned)), scanned) == Seq::<FileView>::empty(),
        merged(merged(old, accepted(old, scanned)), accepted(merged(old, accepted(old, scanned)), scanned))
            == merged(old, accepted(old, scanned)),
{
    let acc = accepted(old, scanned);
    let sacc = sort_by_name(acc);
    let cat = old + sacc;
    let listed = sort_by_name(cat);
    lemma_sort_keeps_members(acc);
    lemma_sort_keeps_members(cat);
    assert forall|p: Seq<char>| has_path(old, p) || has_path(acc, p) implies has_path(listed, p) by {
        crate::listing::lemma_has_path_members(acc, sacc, p);
        lemma_has_path_concat(old, sacc, p);
        crate::listing::lemma_has_path_members(cat, listed, p);
    }
    lemma_accepted_again_empty(old, listed, scanned);
    assert(sort_by_name(Seq::<FileView>::empty()) == Seq::<FileView>::empty());
    assert(listed + Seq::<FileView>::empty() =~= listed);
    lemma_sort_by_name_sorted(cat);
    lemma_sorted_is_fixed(listed);
}

/// Whether `a` stands somewhere before `b` in `s`.
pub open spec fn comes_before(s: Seq<FileView>, a: FileView, b: FileView) -> bool {
    exists|i: int, j: int| 0 <= i < j < s.len() && s[i] == a && s[j] == b
}

/// Files whose names are equal but for letter case keep, in listing order,
/// the order in which they came.
pub proof fn lemma_sort_is_stable(s: Seq<FileView>, i: int, j: int)
    requires
        0 <= i < j < s.len(),
        sort_key(s[i]) == sort_key(s[j]),
    ensures
        comes_before(sort_by_name(s), s[i], s[j]),
    decreases s.len(),
{
    let t = s.drop_last();
    let st = sort_by_name(t);
    let f = s.last();
    let p = insert_pos(st, sort_key(f)) as int;
    lemma_sort_by_name_sorted(t);
    lemma_insert_sorted_sorted(st, f);
    lemma_sort_keeps_members(t);
    let r = st.insert(p, f);
    if j < s.len() - 1 {
        assert(t[i] == s[i] && t[j] == s[j]);
        lemma_sort_is_stable(t, i, j);
        let (a, b) = choose|a: int, b: int| 0 <= a < b < st.len() && st[a] == s[i] && st[b] == s[j];
        let ra = if a < p { a } else { a + 1 };
        let rb = if b < p { b } else { b + 1 };
        assert(r[ra] == s[i]);
        assert(r[rb] == s[j]);
    } else {
        assert(t[i] == s[i]);
        assert(t.contains(s[i]));
        assert(st.contains(s[i]));
        let q = choose|q: int| 0 <= q < st.len() && st[q] == s[i];
        lemma_chars_le_refl(sort_key(f));
        assert(q < p);
        assert(r[q] == s[i]);
        assert(r[p] == f);
    }
}

/// The value of a decimal digit character (`0` for any other character).
pub open spec fn digit_value(c: char) -> nat {
    if 48 <= (c as int) <= 57 {
        ((c as int) - 48) as nat
    } else {
        0
    }
}

/// The number that a sequence of decimal digits reads as.
pub open spec fn read_decimal(s: Seq<char>) -> nat
    decreases s.len(),
{
    if s.len() == 0 {
        0
    } else {
        read_decimal(s.drop_last()) * 10 + digit_value(s.last())
    }
}

/// A digit character reads as its digit.
proof fn lemma_digit_value(d: nat)
    requires
        d < 10,
    ensures
        digit_value(digit(d)) == d,
{
    assert('0' as int == 48);
    assert('1' as int == 49);
    assert('2' as int == 50);
    assert('3' as int == 51);
    assert('4' as int == 52);
    assert('5' as int == 53);
    assert('6' as int == 54);
    assert('7' as int == 55);
    assert('8' as int == 56);
    assert('9' as int == 57);
}

/// The decimal text of a number reads back as the number, and starts with a
/// `0` only where the number is 0.
pub proof fn lemma_decimal_reads_back(n: nat)
    ensures
        read_decimal(decimal(n)) == n,
        decimal(n).len() >= 1,
        decimal(n)[0] == '0' ==> n == 0,
    decreases n,
{
    if n >= 10 {
        lemma_decimal_reads_back(n / 10);
        lemma_digit_value(n % 10);
        assert(decimal(n).drop_last() =~= decimal(n / 10));
        assert(decimal(n).last() == digit(n % 10));
        assert(decimal(n)[0] == decimal(n / 10)[0]);
    } else {
        lemma_digit_value(n);
        assert(decimal(n).drop_last() =~= Seq::<char>::empty());
        assert(read_decimal(decimal(n).drop_last()) == 0);
    }
}

/// Padding to two characters adds a leading `0` that reads as nothing, and
/// numbers below 100 take exactly two characters.
pub proof fn lemma_padded2_reads_back(n: nat)
    ensures
        read_decimal(padded2(n)) == n,
        n < 100 ==> padded2(n).len() == 2,
{
    lemma_decimal_reads_back(n);
    if n < 10 {
        lemma_digit_value(n);
        lemma_digit_value(0);
        assert(padded2(n).drop_last() =~= seq!['0']);
        assert(seq!['0'].drop_last() =~= Seq::<char>::empty());
        assert(read_decimal(seq!['0'].drop_last()) == 0);
        assert(read_decimal(seq!['0']) == 0);
        assert(padded2(n).last() == digit(n));
    } else if n < 100 {
        assert(decimal(n / 10) =~= seq![digit(n / 10)]);
    }
}

/// The fields of the clock text add back to the whole seconds: hours, then
/// minutes and seconds below 60 each.
pub proof fn lemma_clock_fields(secs: nat)
    ensures
        (secs / 3600) * 3600 + ((secs % 3600) / 60) * 60 + secs % 60 == secs,
        (secs % 3600) / 60 < 60,
        secs % 60 < 60,
{
}

/// Names are ordered by their first differing character: where `a` and `b`
/// agree on their first `k` characters and then `a` has the smaller code point
/// at `k`, or `a` ends at `k` while `b` goes on, `a` comes strictly before `b`,
/// whatever the lengths of the two.
pub proof fn lemma_names_order_by_first_difference(a: Seq<char>, b: Seq<char>, k: int)
    requires
        0 <= k <= a.len(),
        k <= b.len(),
        a.take(k) == b.take(k),
        (k < a.len() && k < b.len() && (a[k] as int) < (b[k] as int)) || (k == a.len() && k < b.len()),
    ensures
        chars_le(a, b),
        !chars_le(b, a),
    decreases k,
{
    if k > 0 {
        assert(a[0] == a.take(k)[0]);
        assert(b[0] == b.take(k)[0]);
        assert(a.drop_first().take(k - 1) =~= a.take(k).drop_first());
        assert(b.drop_first().take(k - 1) =~= b.take(k).drop_first());
        lemma_names_order_by_first_difference(a.drop_first(), b.drop_first(), k - 1);
    }
}

/// In listing order no file comes after one whose lower-cased name it
/// precedes: where the keys of the files at `i < j` agree on their first `k`
/// characters, the later key neither has the smaller character at `k` nor
/// ends at `k` while the earlier goes on.
pub proof fn lemma_listing_has_no_inversion(s: Seq<FileView>, i: int, j: int, k: int)
    requires
        0 <= i < j < sort_by_name(s).len(),
        0 <= k,
    ensures
        !({
            let a = sort_key(sort_by_name(s)[j]);
            let b = sort_key(sort_by_name(s)[i]);
            &&& k <= a.len() && k <= b.len()
            &&& a.take(k) == b.take(k)
            &&& (k < a.len() && k < b.len() && (a[k] as int) < (b[k] as int)) || (k == a.len() && k < b.len())
        }),
{
    let t = sort_by_name(s);
    lemma_sort_by_name_sorted(s);
    let a = sort_key(t[j]);
    let b = sort_key(t[i]);
    assert(chars_le(b, a));
    if k <= a.len() && k <= b.len() && a.take(k) == b.take(k) && ((k < a.len() && k < b.len() && (a[k] as int)
        < (b[k] as int)) || (k == a.len() && k < b.len())) {
        lemma_names_order_by_first_difference(a, b, k);
    }
}

/// The thirteen extensions, character by character.
proof fn lemma_format_literals()
    ensures
        "mp3"@ == seq!['m', 'p', '3'],
        "wav"@ == seq!['w', 'a', 'v'],
        "flac"@ == seq!['f', 'l', 'a', 'c'],
        "m4a"@ == seq!['m', '4', 'a'],
        "ogg"@ == seq!['o', 'g', 'g'],
        "wma"@ == seq!['w', 'm', 'a'],
        "aac"@ == seq!['a', 'a', 'c'],
        "aiff"@ == seq!['a', 'i', 'f', 'f'],
        "ape"@ == seq!['a', 'p', 'e'],
        "opus"@ == seq!['o', 'p', 'u', 's'],
        "webm"@ == seq!['w', 'e', 'b', 'm'],
        "mp4"@ == seq!['m', 'p', '4'],
        "mkv"@ == seq!['m', 'k', 'v'],
{
    reveal_strlit("mp3");
    reveal_strlit("wav");
    reveal_strlit("flac");
    reveal_strlit("m4a");
    reveal_strlit("ogg");
    reveal_strlit("wma");
    reveal_strlit("aac");
    reveal_strlit("aiff");
    reveal_strlit("ape");
    reveal_strlit("opus");
    reveal_strlit("webm");
    reveal_strlit("mp4");
    reveal_strlit("mkv");
    assert("mp3"@ =~= seq!['m', 'p', '3']);
    assert("wav"@ =~= seq!['w', 'a', 'v']);
    assert("flac"@ =~= seq!['f', 'l', 'a', 'c']);
    assert("m4a"@ =~= seq!['m', '4', 'a']);
    assert("ogg"@ =~= seq!['o', 'g', 'g']);
    assert("wma"@ =~= seq!['w', 'm', 'a']);
    assert("aac"@ =~= seq!['a', 'a', 'c']);
    assert("aiff"@ =~= seq!['a', 'i', 'f', 'f']);
    assert("ape"@ =~= seq!['a', 'p', 'e']);
    assert("opus"@ =~= seq!['o', 'p', 'u', 's']);
    assert("webm"@ =~= seq!['w', 'e', 'b', 'm']);
    assert("mp4"@ =~= seq!['m', 'p', '4']);
    assert("mkv"@ =~= seq!['m', 'k', 'v']);
}

/// The thirteen formats the tool counts: mp3, wav, flac, m4a, ogg, wma, aac,
/// aiff, ape, opus, webm, mp4 and mkv, each by its lower-case extension.
pub proof fn lemma_counted_formats()
    ensures
        is_supported_ext("mp3"@),
        is_supported_ext("wav"@),
        is_supported_ext("flac"@),
        is_supported_ext("m4a"@),
        is_supported_ext("ogg"@),
        is_supported_ext("wma"@),
        is_supported_ext("aac"@),
        is_supported_ext("aiff"@),
        is_supported_ext("ape"@),
        is_supported_ext("opus"@),
        is_supported_ext("webm"@),
        is_supported_ext("mp4"@),
        is_supported_ext("mkv"@),
{
    lemma_format_literals();
}

/// A file is counted whatever the letter case of its extension, where its
/// extension in lower case is that of one of the thirteen formats.
pub proof fn lemma_counted_in_any_case(e: Seq<char>)
    requires
        lowercase(e) == "mp3"@ || lowercase(e) == "wav"@ || lowercase(e) == "flac"@ || lowercase(e) == "m4a"@
            || lowercase(e) == "ogg"@ || lowercase(e) == "wma"@ || lowercase(e) == "aac"@ || lowercase(e)
            == "aiff"@ || lowercase(e) == "ape"@ || lowercase(e) == "opus"@ || lowercase(e) == "webm"@
            || lowercase(e) == "mp4"@ || lowercase(e) == "mkv"@,
    ensures
        extension_counts(Some(e)),
{
    lemma_counted_formats();
}

/// Whether a registry key path ends with the `command` subkey.
pub open spec fn is_command_key(path: Seq<char>) -> bool {
    path.len() >= 8 && path.subrange(path.len() - 8, path.len() as int) == "\\command"@
}

/// Whether a registry operation sets the default value of its key to `data`.
pub open spec fn sets_default_value(step: StepView, data: Seq<char>) -> bool {
    match step {
        StepView::SetValue { name, data: d, .. } => name == ""@ && d == data,
        StepView::CreateKey { .. } => false,
    }
}

/// The menu starts the program on the selection: the registration creates a
/// `command` key for files and one for folders, and right after creating
/// any `command` key it sets its default value to the program's quoted path
/// followed by the quoted `%1` argument.
pub proof fn lemma_menu_command_passes_selection(exe: Seq<char>)
    ensures
        ({
            let steps = context_menu_steps(exe);
            &&& forall|i: int|
                0 <= i < steps.len() && #[trigger] steps[i] is CreateKey && is_command_key(steps[i]->path) ==> i
                    + 1 < steps.len() && sets_default_value(steps[i + 1], "\""@ + exe + "\" \"%1\""@)
            &&& exists|i: int| 0 <= i < steps.len() && #[trigger] steps[i] == (StepView::CreateKey {
                path: "*\\shell\\AudioCalculator\\command"@,
                error_prefix: "创建命令项失败: "@,
                error_suffix: ""@,
            })
            &&& exists|i: int| 0 <= i < steps.len() && #[trigger] steps[i] == (StepView::CreateKey {
                path: "Directory\\shell\\AudioCalculator\\command"@,
                error_prefix: "创建文件夹命令项失败: "@,
                error_suffix: ""@,
            })
        }),
{
    let steps = context_menu_steps(exe);
    reveal_strlit("*\\shell\\AudioCalculator");
    reveal_strlit("*\\shell\\AudioCalculator\\command");
    reveal_strlit("Directory\\shell\\AudioCalculator");
    reveal_strlit("Directory\\shell\\AudioCalculator\\command");
    reveal_strlit("\\command");
    assert(!is_command_key(steps[0]->path)) by {
        let p = steps[0]->path;
        assert(p.subrange(p.len() - 8, p.len() as int)[0] != "\\command"@[0]);
    }
    assert(!is_command_key(steps[6]->path)) by {
        let p = steps[6]->path;
        assert(p.subrange(p.len() - 8, p.len() as int)[0] != "\\command"@[0]);
    }
    assert forall|i: int|
        0 <= i < steps.len() && #[trigger] steps[i] is CreateKey && is_command_key(steps[i]->path) implies i + 1
            < steps.len() && sets_default_value(steps[i + 1], "\""@ + exe + "\" \"%1\""@) by {
        assert(i == 0 || i == 4 || i == 6 || i == 9);
    }
    assert(steps[4] == (StepView::CreateKey {
        path: "*\\shell\\AudioCalculator\\command"@,
        error_prefix: "创建命令项失败: "@,
        error_suffix: ""@,
    }));
    assert(steps[9] == (StepView::CreateKey {
        path: "Directory\\shell\\AudioCalculator\\command"@,
        error_prefix: "创建文件夹命令项失败: "@,
        error_suffix: ""@,
    }));
}

/// Choosing a billing unit sets it, whatever it was before, and changes
/// nothing else.
pub proof fn lemma_unit_choice_sets_unit(s: AppView, m: bool)
    ensures
        after_event(s, UiEvent::UnitChosen(m)).use_minute == m,
        after_event(s, UiEvent::UnitChosen(m)).files == s.files,
        after_event(s, UiEvent::UnitChosen(m)).total == s.total,
        after_event(s, UiEvent::UnitChosen(m)).price_input == s.price_input,
        after_event(s, UiEvent::UnitChosen(m)).message == s.message,
{
}

/// The amount box of the summary picture sits 24 pixels below the file list:
/// with no files at y 200, else below the list's rows, which start at y 240
/// and are 36 pixels high, one row per file up to ten files and half as many
/// rows (rounded up) from eleven files on, for every picture the layout
/// admits. The amount is written 38 pixels
/// into the box, and the time stamp closes the picture 68 pixels above its
/// foot.
pub proof fn lemma_amount_box_below_list(
    files: Seq<FileView>,
    total_nanos: nat,
    price: Seq<char>,
    use_minute: bool,
    price_text: Seq<char>,
    time_text: Seq<char>,
)
    requires
        screenshot_fits(files.len()),
    ensures
        ({
            let ops = screenshot_ops(files, total_nanos, price, use_minute, price_text, time_text);
            let n = files.len() as int;
            let rows = if n <= 10 { n } else { (n + 1) / 2 };
            &&& ops.len() >= 4
            &&& ops[ops.len() - 4] is FillRect
            &&& ops[ops.len() - 4]->FillRect_width == 656
            &&& ops[ops.len() - 4]->FillRect_height == 80
            &&& ops[ops.len() - 4]->FillRect_y == if n == 0 { 200 } else { 240 + rows * 36 + 24 }
            &&& ops[ops.len() - 2] is Text
            &&& ops[ops.len() - 2]->Text_text == price_text
            &&& ops[ops.len() - 2]->Text_y == ops[ops.len() - 4]->FillRect_y + 38
            &&& ops[ops.len() - 1] is Text
            &&& ops[ops.len() - 1]->Text_text == time_text
            &&& ops[ops.len() - 1]->Text_y == if n == 0 { 472 } else { 492 + rows * 36 }
        }),
{
}

/// Clearing empties the list and its total and keeps the price, the unit and
/// the message; editing the price keeps what was typed and changes nothing
/// else.
pub proof fn lemma_clear_and_price_events(s: AppView, p: String)
    ensures
        after_event(s, UiEvent::ClearRequested).files.len() == 0,
        after_event(s, UiEvent::ClearRequested).total == 0,
        after_event(s, UiEvent::ClearRequested).price_input == s.price_input,
        after_event(s, UiEvent::ClearRequested).use_minute == s.use_minute,
        after_event(s, UiEvent::ClearRequested).message == s.message,
        after_event(s, UiEvent::PriceEdited(p)).price_input == p@,
        after_event(s, UiEvent::PriceEdited(p)).files == s.files,
        after_event(s, UiEvent::PriceEdited(p)).total == s.total,
        after_event(s, UiEvent::PriceEdited(p)).use_minute == s.use_minute,
        after_event(s, UiEvent::PriceEdited(p)).message == s.message,
{
}

/// The tool counts exactly the thirteen formats: a lower-case extension is
/// counted if and only if it is one of them.
pub proof fn lemma_counted_formats_only(e: Seq<char>)
    ensures
        is_supported_ext(e) <==> (e == "mp3"@ || e == "wav"@ || e == "flac"@ || e == "m4a"@ || e == "ogg"@ || e
            == "wma"@ || e == "aac"@ || e == "aiff"@ || e == "ape"@ || e == "opus"@ || e == "webm"@ || e
            == "mp4"@ || e == "mkv"@),
{
    lemma_format_literals();
}

/// Every value the registration writes: the menu title and, after a
/// `command` key, the quoted program and `"%1"` as default values, the
/// program's first icon, and multi-selection handed to one process.
pub proof fn lemma_menu_values(exe: Seq<char>)
    ensures
        forall|i: int|
            0 <= i < context_menu_steps(exe).len() && #[trigger] context_menu_steps(exe)[i] is SetValue ==> {
                let step = context_menu_steps(exe)[i];
                let name = step->SetValue_name;
                let data = step->SetValue_data;
                &&& name == "Icon"@ ==> data == exe + ",0"@
                &&& name == "MultiSelectModel"@ ==> data == "Player"@
                &&& name == ""@ ==> (data == "音频时长统计"@ || data == "\""@ + exe + "\" \"%1\""@)
                &&& (name == "Icon"@ || name == "MultiSelectModel"@ || name == ""@)
            },
{
    let steps = context_menu_steps(exe);
    reveal_strlit("Icon");
    reveal_strlit("MultiSelectModel");
    reveal_strlit("");
    assert("Icon"@.len() != ""@.len());
    assert("MultiSelectModel"@.len() != ""@.len());
    assert("Icon"@.len() != "MultiSelectModel"@.len());
    assert forall|i: int| 0 <= i < steps.len() && #[trigger] steps[i] is SetValue implies {
        let step = steps[i];
        let name = step->SetValue_name;
        let data = step->SetValue_data;
        &&& name == "Icon"@ ==> data == exe + ",0"@
        &&& name == "MultiSelectModel"@ ==> data == "Player"@
        &&& name == ""@ ==> (data == "音频时长统计"@ || data == "\""@ + exe + "\" \"%1\""@)
        &&& (name == "Icon"@ || name == "MultiSelectModel"@ || name == ""@)
    } by {
        assert(i == 1 || i == 2 || i == 3 || i == 5 || i == 7 || i == 8 || i == 10);
    }
}

} // verus!
