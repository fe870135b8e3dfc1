//! The layout of the summary picture: the size of the picture and, in drawing
//! order, the rectangles and texts on it.

use vstd::prelude::*;
use crate::audio::{AudioFileInfo, FileView, views};
use crate::duration::{Duration, NANOS_PER_SEC};
use crate::text::{clock_text, decimal, format_duration, push_decimal};

verus! {

/// A raw RGBA picture, four bytes per pixel, row by row.
pub struct ImageData {
    pub width: usize,
    pub height: usize,
    pub data: Vec<u8>,
}

/// A colour with alpha.
#[derive(Clone, Copy, Debug, PartialEq, Eq)]
pub struct Rgba8 {
    pub r: u8,
    pub g: u8,
    pub b: u8,
    pub a: u8,
}

/// The colour with these channels.
pub open spec fn rgba(r: u8, g: u8, b: u8, a: u8) -> Rgba8 {
    Rgba8 { r, g, b, a }
}

fn color(r: u8, g: u8, b: u8, a: u8) -> (c: Rgba8)
    ensures
        c == rgba(r, g, b, a),
{
    Rgba8 { r, g, b, a }
}

/// One drawing step: a filled rectangle, or a line of text whose top left
/// corner is at `(x, y)` and whose glyphs are `size` pixels high.
pub enum DrawOp {
    FillRect { x: i32, y: i32, width: u32, height: u32, color: Rgba8 },
    Text { x: i32, y: i32, size: u32, color: Rgba8, text: String },
}

/// The content of a drawing step.
pub ghost enum DrawView {
    FillRect { x: int, y: int, width: nat, height: nat, color: Rgba8 },
    Text { x: int, y: int, size: nat, color: Rgba8, text: Seq<char> },
}

impl View for DrawOp {
    type V = DrawView;

    open spec fn view(&self) -> DrawView {
        match self {
            DrawOp::FillRect { x, y, width, height, color } => DrawView::FillRect {
                x: *x as int,
                y: *y as int,
                width: *width as nat,
                height: *height as nat,
                color: *color,
            },
            DrawOp::Text { x, y, size, color, text } => DrawView::Text {
                x: *x as int,
                y: *y as int,
                size: *size as nat,
                color: *color,
                text: text@,
            },
        }
    }
}

/// The contents of a sequence of drawing steps.
pub open spec fn op_views(s: Seq<DrawOp>) -> Seq<DrawView> {
    s.map_values(|o: DrawOp| o@)
}

/// The number of columns the file list takes: two from eleven files on.
pub open spec fn list_columns(n: nat) -> nat {
    if n > 10 {
        2
    } else {
        1
    }
}

/// The number of rows of the file list: the files per column rounded up, held
/// to `i32::MAX` (the saturating conversion of the rounded-up quotient).
pub open spec fn list_rows(n: nat) -> int {
    let rows = (n + list_columns(n) - 1) / (list_columns(n) as int);
    if rows > i32::MAX {
        i32::MAX as int
    } else {
        rows
    }
}

/// The height the file list takes: none without files, else its rows and a
/// margin of 20 pixels.
pub open spec fn file_list_height(n: nat, line_height: int) -> int {
    if n == 0 {
        0
    } else {
        list_rows(n) * line_height + 20
    }
}

/// The height of the file list for `file_count` files and rows of
/// `line_height` pixels.
pub fn calc_file_list_height(file_count: usize, line_height: i32) -> (r: i32)
    requires
        file_count > 0 ==> i32::MIN <= list_rows(file_count as nat) * line_height <= i32::MAX - 20,
    ensures
        r == file_list_height(file_count as nat, line_height as int),
{
    if file_count == 0 {
        return 0;
    }
    let cols: usize = if file_count > 10 { 2 } else { 1 };
    let q = file_count / cols;
    let rows_exact = if file_count % cols == 0 { q } else { q + 1 };
    proof {
        if cols == 2 {
            assert(rows_exact == (file_count + 1) / 2);
        }
    }
    let rows: i32 = if rows_exact > 2147483647 { 2147483647 } else { rows_exact as i32 };
    proof {
        assert(rows == list_rows(file_count as nat));
        assert(-2147483648 <= rows * line_height <= 2147483647 - 20);
    }
    rows * line_height + 20
}

/// `name` cut to its first `keep` characters followed by `...` where it has
/// more than `limit` characters.
pub open spec fn shortened(name: Seq<char>, limit: nat, keep: nat) -> Seq<char> {
    if name.len() > limit {
        name.take(keep as int) + "..."@
    } else {
        name
    }
}

/// A file name as the list shows it: cut where it is longer than `limit`
/// characters.
pub fn shorten_name(name: &String, limit: usize, keep: usize) -> (r: String)
    requires
        keep <= limit,
    ensures
        r@ == shortened(name@, limit as nat, keep as nat),
{
    let s = name.as_str();
    if s.unicode_len() > limit {
        let mut r = String::from_str(s.substring_char(0, keep));
        r.append("...");
        r
    } else {
        String::from_str(s)
    }
}

/// The background of a row of the list: light grey on even rows, white on odd
/// ones.
pub open spec fn row_background(row: int) -> Rgba8 {
    if row % 2 == 0 {
        rgba(248, 250, 252, 255)
    } else {
        rgba(255, 255, 255, 255)
    }
}

/// The colour of file names.
pub open spec fn name_color() -> Rgba8 {
    rgba(75, 85, 99, 255)
}

/// The colour of running times.
pub open spec fn time_color() -> Rgba8 {
    rgba(234, 88, 12, 255)
}

/// The whole seconds of a running time as clock text.
pub open spec fn clock_of(nanos: nat) -> Seq<char> {
    clock_text(nanos / (NANOS_PER_SEC as nat))
}

/// The steps for row `i` of a one-column list.
pub open spec fn single_column_row(f: FileView, i: int, x: int, y: int, total_width: u32) -> Seq<DrawView> {
    let row_y = y + i * 36;
    seq![
        DrawView::FillRect {
            x: x - 8,
            y: row_y - 2,
            width: (total_width + 16) as nat,
            height: 36,
            color: row_background(i),
        },
        DrawView::Text { x, y: row_y + 4, size: 20, color: name_color(), text: "* "@ + shortened(f.name, 28, 25) },
        DrawView::Text {
            x: x + (total_width as i32) - 90,
            y: row_y + 4,
            size: 18,
            color: time_color(),
            text: clock_of(f.nanos),
        },
    ]
}

/// The steps for the first `k` rows of a one-column list.
pub open spec fn single_column_ops(files: Seq<FileView>, x: int, y: int, total_width: u32, k: nat) -> Seq<DrawView>
    decreases k,
{
    if k == 0 {
        Seq::empty()
    } else {
        single_column_ops(files, x, y, total_width, (k - 1) as nat) + single_column_row(
            files[k - 1],
            k - 1,
            x,
            y,
            total_width,
        )
    }
}

/// The files per column of a two-column list.
pub open spec fn items_per_column(n: nat) -> int {
    (n as int + 1) / 2
}

/// The width of a column of a two-column list.
pub open spec fn column_width(total_width: u32) -> int {
    total_width / 2 - 16
}

/// The steps for file `i` of a two-column list of `n` files.
pub open spec fn two_column_item(f: FileView, i: int, n: nat, x: int, y: int, total_width: u32) -> Seq<DrawView> {
    let col = i / items_per_column(n);
    let row = i % items_per_column(n);
    let item_x = x + col * (column_width(total_width) + 32);
    let item_y = y + row * 36;
    seq![
        DrawView::FillRect {
            x: item_x - 8,
            y: item_y - 2,
            width: (column_width(total_width) + 16) as nat,
            height: 36,
            color: row_background(row),
        },
        DrawView::Text {
            x: item_x,
            y: item_y + 4,
            size: 18,
            color: name_color(),
            text: "* "@ + shortened(f.name, 12, 9) + " ("@ + clock_of(f.nanos) + ")"@,
        },
    ]
}

/// The steps for the first `k` files of a two-column list.
pub open spec fn two_column_ops(files: Seq<FileView>, x: int, y: int, total_width: u32, k: nat) -> Seq<DrawView>
    decreases k,
{
    if k == 0 {
        Seq::empty()
    } else {
        two_column_ops(files, x, y, total_width, (k - 1) as nat) + two_column_item(
            files[k - 1],
            k - 1,
            files.len(),
            x,
            y,
            total_width,
        )
    }
}

/// The steps that draw the file list at `(x, y)` across `total_width` pixels,
/// and the height below it where the picture goes on.
pub open spec fn file_list_layout(files: Seq<FileView>, x: int, y: int, total_width: u32) -> (Seq<DrawView>, int) {
    let n = files.len();
    if n == 0 {
        (Seq::empty(), y)
    } else if list_columns(n) == 1 {
        (single_column_ops(files, x, y, total_width, n), y + n * 36)
    } else {
        (two_column_ops(files, x, y, total_width, n), y + items_per_column(n) * 36)
    }
}

/// Where the list can be drawn without leaving the range of `i32`, as the
/// drawing arithmetic needs.
pub open spec fn list_fits(n: nat, x: int, y: int, total_width: u32) -> bool {
    &&& i32::MIN + 8 <= x
    &&& i32::MIN + 2 <= y
    &&& total_width + 16 <= u32::MAX
    &&& (list_columns(n) == 1 ==> {
        &&& y + n * 36 <= i32::MAX
        &&& x + (total_width as i32) <= i32::MAX
        &&& i32::MIN <= x + (total_width as i32) - 90
    })
    &&& (list_columns(n) == 2 ==> {
        &&& total_width / 2 >= 16
        &&& items_per_column(n) * 36 <= i32::MAX
        &&& y + items_per_column(n) * 36 <= i32::MAX
        &&& column_width(total_width) + 32 <= i32::MAX
        &&& x + column_width(total_width) + 32 <= i32::MAX
    })
}

/// The steps that draw the file list, and the height below it.
pub fn file_list_ops(files: &Vec<AudioFileInfo>, x: i32, y: i32, total_width: u32) -> (r: (Vec<DrawOp>, i32))
    requires
        files@.len() > 0 ==> list_fits(files@.len(), x as int, y as int, total_width),
    ensures
        op_views(r.0@) == file_list_layout(views(files@), x as int, y as int, total_width).0,
        r.1 == file_list_layout(views(files@), x as int, y as int, total_width).1,
{
    let ghost fv = views(files@);
    let n = files.len();
    let mut ops: Vec<DrawOp> = Vec::new();
    if n == 0 {
        assert(op_views(ops@) =~= Seq::<DrawView>::empty());
        return (ops, y);
    }
    if n <= 10 {
        let mut i: usize = 0;
        assert(op_views(ops@) =~= Seq::<DrawView>::empty());
        while i < n
            invariant
                n == files@.len(),
                fv == views(files@),
                list_columns(n as nat) == 1,
                list_fits(n as nat, x as int, y as int, total_width),
                i <= n,
                op_views(ops@) == single_column_ops(fv, x as int, y as int, total_width, i as nat),
            decreases n - i,
        {
            let f = &files[i];
            let row_y = y + (i as i32) * 36;
            let bg = if i % 2 == 0 { color(248, 250, 252, 255) } else { color(255, 255, 255, 255) };
            let mut name_text = String::from_str("* ");
            let short = shorten_name(&f.file_name, 28, 25);
            name_text.append(short.as_str());
            let time_text = format_duration(f.duration);
            let ghost before = op_views(ops@);
            ops.push(DrawOp::FillRect { x: x - 8, y: row_y - 2, width: total_width + 16, height: 36, color: bg });
            ops.push(DrawOp::Text { x, y: row_y + 4, size: 20, color: color(75, 85, 99, 255), text: name_text });
            ops.push(
                DrawOp::Text {
                    x: x + #[verifier::truncate] (total_width as i32) - 90,
                    y: row_y + 4,
                    size: 18,
                    color: color(234, 88, 12, 255),
                    text: time_text,
                },
            );
            proof {
                assert(fv[i as int] == f@);
                assert(op_views(ops@) =~= before + single_column_row(
                    fv[i as int],
                    i as int,
                    x as int,
                    y as int,
                    total_width,
                ));
            }
            i = i + 1;
        }
        (ops, y + (n as i32) * 36)
    } else {
        let col_width: i32 = (total_width / 2 - 16) as i32;
        let items_per_col: usize = n / 2 + n % 2;
        assert(items_per_col == items_per_column(n as nat));
        let mut i: usize = 0;
        assert(op_views(ops@) =~= Seq::<DrawView>::empty());
        while i < n
            invariant
                n == files@.len(),
                n > 10,
                fv == views(files@),
                list_columns(n as nat) == 2,
                list_fits(n as nat, x as int, y as int, total_width),
                col_width == column_width(total_width),
                items_per_col == items_per_column(n as nat),
                i <= n,
                op_views(ops@) == two_column_ops(fv, x as int, y as int, total_width, i as nat),
            decreases n - i,
        {
            let f = &files[i];
            let col = i / items_per_col;
            let row = i % items_per_col;
            proof {
                assert(col <= 1) by (nonlinear_arith)
                    requires
                        i < n,
                        n <= 2 * items_per_col,
                        items_per_col > 0,
                        col == i / items_per_col,
                ;
                assert(row < items_per_col);
            }
            let step = col_width + 32;
            proof {
                if col == 0 {
                    assert(col * step == 0);
                } else {
                    assert(col == 1);
                    assert(col * step == step) by (nonlinear_arith)
                        requires
                            col == 1,
                    ;
                }
            }
            let item_x = x + (col as i32) * step;
            let item_y = y + (row as i32) * 36;
            let bg = if row % 2 == 0 { color(248, 250, 252, 255) } else { color(255, 255, 255, 255) };
            let mut text = String::from_str("* ");
            let short = shorten_name(&f.file_name, 12, 9);
            text.append(short.as_str());
            text.append(" (");
            let time_text = format_duration(f.duration);
            text.append(time_text.as_str());
            text.append(")");
            let ghost before = op_views(ops@);
            ops.push(
                DrawOp::FillRect {
                    x: item_x - 8,
                    y: item_y - 2,
                    width: col_width as u32 + 16,
                    height: 36,
                    color: bg,
                },
            );
            ops.push(DrawOp::Text { x: item_x, y: item_y + 4, size: 18, color: color(75, 85, 99, 255), text });
            proof {
                assert(fv[i as int] == f@);
                assert(op_views(ops@) =~= before + two_column_item(
                    fv[i as int],
                    i as int,
                    n as nat,
                    x as int,
                    y as int,
                    total_width,
                ));
            }
            i = i + 1;
        }
        (ops, y + (items_per_col as i32) * 36)
    }
}

/// The width of the picture.
pub const SCREENSHOT_WIDTH: u32 = 800;

/// The height of the picture for `n` files.
pub open spec fn screenshot_height(n: nat) -> int {
    440 + file_list_height(n, 36) + 100
}

/// Where the picture for `n` files can be laid out without leaving the range
/// of `i32`.
pub open spec fn screenshot_fits(n: nat) -> bool {
    n == 0 || 560 + list_rows(n) * 36 <= i32::MAX
}

/// Whether the picture for `file_count` files can be laid out (the
/// condition of `plan_screenshot`).
pub fn screenshot_layout_fits(file_count: usize) -> (r: bool)
    ensures
        r == screenshot_fits(file_count as nat),
{
    if file_count == 0 {
        return true;
    }
    let cols: usize = if file_count > 10 { 2 } else { 1 };
    let q = file_count / cols;
    let rows = if file_count % cols == 0 { q } else { q + 1 };
    proof {
        if cols == 2 {
            assert(rows == (file_count + 1) / 2);
        }
    }
    if rows > 2147483647 {
        return false;
    }
    let rows64 = rows as u64;
    560 + rows64 * 36 <= 2147483647
}

/// The billing unit as the picture names it.
pub open spec fn unit_text(use_minute: bool) -> Seq<char> {
    if use_minute {
        "分钟"@
    } else {
        "小时"@
    }
}

/// The colour of labels.
pub open spec fn label_color() -> Rgba8 {
    rgba(107, 114, 128, 255)
}

/// The white card under everything but the background and the stripe.
pub open spec fn card_view(n: nat) -> DrawView {
    DrawView::FillRect { x: 40, y: 40, width: 720, height: (screenshot_height(n) - 80) as nat, color: rgba(255, 255, 255, 252) }
}

/// The title and the three figures at the top: file count, total time and
/// unit price.
pub open spec fn header_ops(n: nat, total_nanos: nat, price: Seq<char>, use_minute: bool) -> Seq<DrawView> {
    seq![
        DrawView::Text { x: 72, y: 70, size: 36, color: rgba(234, 88, 12, 255), text: "音频时长统计"@ },
        DrawView::FillRect { x: 72, y: 130, width: 200, height: 50, color: rgba(239, 246, 255, 255) },
        DrawView::Text { x: 88, y: 144, size: 22, color: rgba(59, 130, 246, 255), text: "文件: "@ + decimal(n) + " 个"@ },
        DrawView::FillRect { x: 288, y: 130, width: 200, height: 50, color: rgba(250, 245, 255, 255) },
        DrawView::Text { x: 304, y: 144, size: 22, color: rgba(168, 85, 247, 255), text: "时长: "@ + clock_of(total_nanos) },
        DrawView::FillRect { x: 504, y: 130, width: 220, height: 50, color: rgba(240, 253, 244, 255) },
        DrawView::Text {
            x: 520,
            y: 144,
            size: 22,
            color: rgba(34, 197, 94, 255),
            text: "单价: ¥"@ + price + "/"@ + unit_text(use_minute),
        },
    ]
}

/// The heading and rows of the file list, where there are files, and the
/// height where the picture goes on.
pub open spec fn list_section(files: Seq<FileView>) -> (Seq<DrawView>, int) {
    if files.len() == 0 {
        (Seq::empty(), 200)
    } else {
        let list = file_list_layout(files, 72, 240, 656);
        (seq![DrawView::Text { x: 72, y: 200, size: 24, color: label_color(), text: "文件列表:"@ }] + list.0, list.1 + 24)
    }
}

/// The total amount box and the time stamp at the foot.
pub open spec fn footer_ops(n: nat, y: int, price_text: Seq<char>, time_text: Seq<char>) -> Seq<DrawView> {
    seq![
        DrawView::FillRect { x: 72, y, width: 656, height: 80, color: rgba(255, 251, 235, 255) },
        DrawView::Text { x: 92, y: y + 12, size: 18, color: label_color(), text: "总计金额"@ },
        DrawView::Text { x: 92, y: y + 38, size: 42, color: rgba(234, 88, 12, 255), text: price_text },
        DrawView::Text {
            x: 72,
            y: screenshot_height(n) - 68,
            size: 16,
            color: rgba(156, 163, 175, 255),
            text: time_text,
        },
    ]
}

/// Every step after the stripe, in drawing order.
pub open spec fn screenshot_ops(
    files: Seq<FileView>,
    total_nanos: nat,
    price: Seq<char>,
    use_minute: bool,
    price_text: Seq<char>,
    time_text: Seq<char>,
) -> Seq<DrawView> {
    header_ops(files.len(), total_nanos, price, use_minute) + list_section(files).0 + footer_ops(
        files.len(),
        list_section(files).1,
        price_text,
        time_text,
    )
}

/// The layout of the picture: its size, the card drawn over the background,
/// and the steps drawn after the coloured stripe at the top of the card.
pub struct ScreenshotPlan {
    pub width: u32,
    pub height: u32,
    pub card: DrawOp,
    pub ops: Vec<DrawOp>,
}

/// The label with the number of files.
fn count_label(n: usize) -> (r: String)
    ensures
        r@ == "文件: "@ + decimal(n as nat) + " 个"@,
{
    let mut s = String::from_str("文件: ");
    push_decimal(&mut s, n as u64);
    s.append(" 个");
    s
}

/// The label with the total running time.
fn duration_label(total: Duration) -> (r: String)
    ensures
        r@ == "时长: "@ + clock_of(total@),
{
    let mut s = String::from_str("时长: ");
    let t = format_duration(total);
    s.append(t.as_str());
    s
}

/// The label with the unit price as typed and the billing unit.
fn price_label(price: &str, use_minute: bool) -> (r: String)
    ensures
        r@ == "单价: ¥"@ + price@ + "/"@ + unit_text(use_minute),
{
    let mut s = String::from_str("单价: ¥");
    s.append(price);
    s.append("/");
    if use_minute {
        s.append("分钟");
    } else {
        s.append("小时");
    }
    s
}

/// The layout of the picture for these files, their total running time, the
/// unit price as typed, the billing unit, the amount as text and the time
/// stamp.
pub fn plan_screenshot(
    files: &Vec<AudioFileInfo>,
    total_duration: Duration,
    price: &str,
    use_minute: bool,
    price_text: String,
    time_text: String,
) -> (r: ScreenshotPlan)
    requires
        screenshot_fits(files@.len()),
    ensures
        r.width == SCREENSHOT_WIDTH,
        r.height == screenshot_height(files@.len()),
        r.card@ == card_view(files@.len()),
        op_views(r.ops@) == screenshot_ops(views(files@), total_duration@, price@, use_minute, price_text@, time_text@),
{
    let ghost fv = views(files@);
    let n = files.len();
    let list_height = calc_file_list_height(n, 36);
    let height: u32 = (440 + list_height + 100) as u32;
    let card = DrawOp::FillRect {
        x: 40,
        y: 40,
        width: SCREENSHOT_WIDTH - 80,
        height: height - 80,
        color: color(255, 255, 255, 252),
    };
    let mut ops: Vec<DrawOp> = Vec::new();
    ops.push(DrawOp::Text { x: 72, y: 70, size: 36, color: color(234, 88, 12, 255), text: String::from_str("音频时长统计") });
    ops.push(DrawOp::FillRect { x: 72, y: 130, width: 200, height: 50, color: color(239, 246, 255, 255) });
    ops.push(DrawOp::Text { x: 88, y: 144, size: 22, color: color(59, 130, 246, 255), text: count_label(n) });
    ops.push(DrawOp::FillRect { x: 288, y: 130, width: 200, height: 50, color: color(250, 245, 255, 255) });
    ops.push(DrawOp::Text { x: 304, y: 144, size: 22, color: color(168, 85, 247, 255), text: duration_label(total_duration) });
    ops.push(DrawOp::FillRect { x: 504, y: 130, width: 220, height: 50, color: color(240, 253, 244, 255) });
    ops.push(DrawOp::Text { x: 520, y: 144, size: 22, color: color(34, 197, 94, 255), text: price_label(price, use_minute) });
    let ghost head = op_views(ops@);
    assert(head =~= header_ops(n as nat, total_duration@, price@, use_minute));
    let mut y: i32 = 200;
    if n > 0 {
        ops.push(DrawOp::Text { x: 72, y: 200, size: 24, color: color(107, 114, 128, 255), text: String::from_str("文件列表:") });
        proof {
            if n > 10 {
                assert(list_rows(n as nat) == items_per_column(n as nat));
            }
        }
        let (mut list_ops, end) = file_list_ops(files, 72, 240, 656);
        ops.append(&mut list_ops);
        y = end + 24;
    }
    assert(op_views(ops@) =~= head + list_section(fv).0);
    assert(y == list_section(fv).1);
    let ghost middle = op_views(ops@);
    ops.push(DrawOp::FillRect { x: 72, y, width: 656, height: 80, color: color(255, 251, 235, 255) });
    ops.push(DrawOp::Text { x: 92, y: y + 12, size: 18, color: color(107, 114, 128, 255), text: String::from_str("总计金额") });
    ops.push(DrawOp::Text { x: 92, y: y + 38, size: 42, color: color(234, 88, 12, 255), text: price_text });
    ops.push(DrawOp::Text { x: 72, y: (height - 68) as i32, size: 16, color: color(156, 163, 175, 255), text: time_text });
    assert(op_views(ops@) =~= middle + footer_ops(n as nat, y as int, price_text@, time_text@));
    ScreenshotPlan { width: SCREENSHOT_WIDTH, height, card, ops }
}

} // verus!
