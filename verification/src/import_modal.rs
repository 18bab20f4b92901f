use vstd::prelude::*;

use crate::cell::Rect;
use crate::format::utf8_len;
use crate::{fits_i32, trunc_div};

verus! {

/// One entry of the file chooser: the file's name and the box it is listed
/// in, `index` boxes below the top of the list.
#[derive(Debug)]
pub struct FileBox {
    pub file: String,
    pub height: i32,
    pub width: i32,
    pub index: i32,
    pub x: i32,
    pub y: i32,
}

/// Where the name of the entry `b` is written, for a font of `font_scale`
/// pixels whose rendered text is `text_height` pixels high: one font size in
/// from the left edge, a quarter of the box plus half the text down from the
/// top, as wide as one font size per byte of the name and two font sizes
/// high. `None` when one of these sums or products leaves the `i32` range.
pub open spec fn text_target_of(b: FileBox, font_scale: int, text_height: int) -> Option<Rect> {
    let x = b.x + font_scale;
    let y_box = b.y + trunc_div(trunc_div(b.height as int, 2), 2);
    let y = y_box + trunc_div(text_height, 2);
    let w = font_scale * ((utf8_len(b.file@) as int) as i32);
    let h = font_scale * 2;
    if fits_i32(x) && fits_i32(y_box) && fits_i32(y) && fits_i32(w) && fits_i32(h) {
        Some(Rect { x: x as i32, y: y as i32, w: w as u32, h: h as u32 })
    } else {
        None
    }
}

impl FileBox {
    /// The entry for `file` at position `index` of a list whose top-left
    /// corner is (`x`, `y`), with boxes of the given size stacked downwards.
    /// `selected` plays no part in the entry.
    pub fn build(
        file: String,
        x: i32,
        y: i32,
        height: i32,
        width: i32,
        selected: bool,
        index: i32,
    ) -> (b: FileBox)
        requires
            fits_i32(index * height),
            fits_i32(y + index * height),
        ensures
            b.file == file,
            b.height == height,
            b.width == width,
            b.index == index,
            b.x == x,
            b.y == y + index * height,
    {
        FileBox { file: file, height: height, width: width, index: index, x: x, y: y + (index) * height }
    }

    /// Where the entry's name is written (see `text_target_of`).
    pub fn text_target(&self, font_scale: i32, text_height: i32) -> (r: Option<Rect>)
        ensures
            r == text_target_of(*self, font_scale as int, text_height as int),
    {
        let center = (self.width / 2, self.height / 2);
        let x = self.x as i64 + font_scale as i64;
        let y_box = self.y as i64 + (center.1 / 2) as i64;
        let y = y_box + (text_height / 2) as i64;
        let len = #[verifier::truncate] (self.file.as_str().len() as i32);
        assert(-0x4000_0000_0000_0000 <= font_scale * len <= 0x4000_0000_0000_0000) by (nonlinear_arith)
            requires
                -0x8000_0000 <= font_scale <= 0x7fff_ffff,
                -0x8000_0000 <= len <= 0x7fff_ffff,
        ;
        let w = font_scale as i64 * len as i64;
        let h = font_scale as i64 * 2;
        if x < i32::MIN as i64 || x > i32::MAX as i64 || y_box < i32::MIN as i64 || y_box
            > i32::MAX as i64 || y < i32::MIN as i64 || y > i32::MAX as i64 || w < i32::MIN as i64
            || w > i32::MAX as i64 || h < i32::MIN as i64 || h > i32::MAX as i64 {
            return None;
        }
        Some(Rect { x: x as i32, y: y as i32, w: (w as i32) as u32, h: (h as i32) as u32 })
    }
}

/// The left edge of a chooser `w` pixels wide, centred on a screen `width`
/// pixels wide.
pub open spec fn modal_x(width: int, w: int) -> int {
    trunc_div(width, 2) - trunc_div(w, 2)
}

/// The top edge of a chooser `h` pixels high, centred on a screen `height`
/// pixels high.
pub open spec fn modal_y(height: int, h: int) -> int {
    trunc_div(height, 2) - trunc_div(h, 2)
}

/// The height of each entry of a chooser `h` pixels high that lists `count`
/// files: a fifth of the chooser, or less when more than five files share it.
pub open spec fn box_height(h: int, count: int) -> int {
    let fifth = trunc_div(h, 5);
    let share = trunc_div(h, count);
    if fifth <= share {
        fifth
    } else {
        share
    }
}

/// Whether a chooser of `w` by `h` pixels, centred on a `width` by `height`
/// screen and listing `count` files, can be laid out in `i32` coordinates.
pub open spec fn layout_fits(height: int, width: int, w: int, h: int, count: int) -> bool {
    &&& count <= i32::MAX
    &&& fits_i32(modal_x(width, w))
    &&& fits_i32(modal_y(height, h))
    &&& forall|i: int|
        0 <= i < count ==> fits_i32(#[trigger] (i * box_height(h, count))) && fits_i32(
            modal_y(height, h) + i * box_height(h, count),
        )
}

/// The selection after one step down in a list of `len` entries: the next
/// entry, or the last one.
pub open spec fn selection_down(sel: int, len: int) -> int {
    if len - 1 <= sel + 1 {
        len - 1
    } else {
        sel + 1
    }
}

/// The selection after one step up: the previous entry, or the first one.
pub open spec fn selection_up(sel: int) -> int {
    if sel - 1 <= 0 {
        0
    } else {
        sel - 1
    }
}

/// The selection after `d` steps down from `sel` in a list of `len` entries.
pub open spec fn selection_after_downs(sel: int, len: int, d: nat) -> int
    decreases d,
{
    if d == 0 {
        sel
    } else {
        selection_down(selection_after_downs(sel, len, (d - 1) as nat), len)
    }
}

/// Whether a chooser shown as `shown` is shown after `k` toggles.
pub open spec fn shown_after_toggles(shown: bool, k: nat) -> bool
    decreases k,
{
    if k == 0 {
        shown
    } else {
        !shown_after_toggles(shown, (k - 1) as nat)
    }
}

/// For a chooser of non-negative height `h` listing `count` files, the
/// boxes lie inside it: box `i` starts `i` box heights below its top and ends
/// no lower than its bottom, and no box is taller than a fifth of it.
pub proof fn lemma_boxes_inside(h: int, count: int, i: int)
    requires
        h >= 0,
        0 <= i < count,
    ensures
        0 <= box_height(h, count) <= trunc_div(h, 5),
        0 <= i * box_height(h, count),
        i * box_height(h, count) + box_height(h, count) <= h,
{
    let bh = box_height(h, count);
    let share = h / count;
    assert(trunc_div(h, count) == share);
    assert(trunc_div(h, 5) == h / 5);
    assert(0 <= share) by (nonlinear_arith)
        requires
            h >= 0,
            count >= 1,
            share == h / count,
    ;
    assert(count * share <= h) by (nonlinear_arith)
        requires
            h >= 0,
            count >= 1,
            share == h / count,
    {
        vstd::arithmetic::div_mod::lemma_fundamental_div_mod(h, count);
    }
    assert(0 <= h / 5);
    assert(0 <= bh <= share);
    assert(i * bh + bh <= count * share) by (nonlinear_arith)
        requires
            0 <= i < count,
            0 <= bh <= share,
    {
        assert((i + 1) * bh <= count * bh);
        assert(count * bh <= count * share);
    }
    assert(0 <= i * bh) by (nonlinear_arith)
        requires
            0 <= i,
            0 <= bh,
    ;
}

/// Up selects the previous entry (the first stays selected), and down the
/// next one (the last stays selected): each moves by exactly one place away
/// from the ends of the list.
pub proof fn lemma_up_down_steps(sel: int, len: int)
    requires
        0 <= sel < len,
    ensures
        sel >= 1 ==> selection_up(sel) == sel - 1,
        sel == 0 ==> selection_up(sel) == 0,
        sel + 1 < len ==> selection_down(sel, len) == sel + 1,
        sel + 1 == len ==> selection_down(sel, len) == sel,
{
}

/// Up undoes down, and down undoes up, away from the ends of the list.
pub proof fn lemma_up_undoes_down(sel: int, len: int)
    requires
        0 <= sel < len,
    ensures
        sel + 1 < len ==> selection_up(selection_down(sel, len)) == sel,
        sel >= 1 ==> selection_down(selection_up(sel), len) == sel,
{
}

/// From the first entry, `d` steps down select entry `d`, or the last entry
/// when the list is shorter.
pub proof fn lemma_downs_from_top(len: int, d: nat)
    requires
        len >= 1,
    ensures
        selection_after_downs(0, len, d) == (if d <= len - 1 {
            d as int
        } else {
            len - 1
        }),
    decreases d,
{
    if d > 0 {
        lemma_downs_from_top(len, (d - 1) as nat);
    }
}

/// A chooser built hidden is shown after `k` toggles exactly when `k` is odd.
pub proof fn lemma_toggles_from_hidden(k: nat)
    ensures
        shown_after_toggles(false, k) == (k % 2 == 1),
    decreases k,
{
    if k > 0 {
        lemma_toggles_from_hidden((k - 1) as nat);
    }
}

/// The file chooser: the files it lists, the frame it is drawn in, whether
/// it is shown, and which file is selected.
pub struct ImportModal {
    files: Vec<FileBox>,
    rect: Rect,
    visible: bool,
    cur_sel: i32,
}

impl ImportModal {
    /// The entries listed.
    pub closed spec fn entries(&self) -> Seq<FileBox> {
        self.files@
    }

    /// The frame the chooser is drawn in.
    pub closed spec fn frame(&self) -> Rect {
        self.rect
    }

    /// Whether the chooser is shown.
    pub closed spec fn shown(&self) -> bool {
        self.visible
    }

    /// The position of the selected entry.
    pub closed spec fn selection(&self) -> int {
        self.cur_sel as int
    }

    /// The chooser's invariant: the number of entries fits in an `i32`, and
    /// the selection is one of them, or 0 when there is none.
    #[verifier::type_invariant]
    spec fn wf(&self) -> bool {
        &&& self.files@.len() <= i32::MAX
        &&& if self.files@.len() > 0 {
            0 <= self.cur_sel < self.files@.len()
        } else {
            self.cur_sel == 0
        }
    }

    /// A hidden chooser of `w` by `h` pixels, centred on a `width` by
    /// `height` screen, listing `names` in their order, one box of
    /// `box_height` pixels per name, the first one selected.
    pub fn build(height: i32, width: i32, w: i32, h: i32, names: Vec<String>) -> (m: ImportModal)
        requires
            layout_fits(height as int, width as int, w as int, h as int, names@.len() as int),
        ensures
            !m.shown(),
            m.selection() == 0,
            m.frame() == (Rect {
                x: modal_x(width as int, w as int) as i32,
                y: modal_y(height as int, h as int) as i32,
                w: w as u32,
                h: h as u32,
            }),
            m.entries().len() == names@.len(),
            forall|i: int|
                0 <= i < names@.len() ==> (#[trigger] m.entries()[i]) == (FileBox {
                    file: names@[i],
                    height: box_height(h as int, names@.len() as int) as i32,
                    width: w,
                    index: i as i32,
                    x: modal_x(width as int, w as int) as i32,
                    y: (modal_y(height as int, h as int) + i * box_height(
                        h as int,
                        names@.len() as int,
                    )) as i32,
                }),
    {
        let center = (width / 2, height / 2);
        let x = center.0 - (w / 2);
        let y = center.1 - (h / 2);
        let r = Rect { x: x, y: y, w: w as u32, h: h as u32 };

        let c = names.len() as i32;
        let mut files: Vec<FileBox> = Vec::new();
        let mut i: usize = 0;
        let n = names.len();
        while i < n
            invariant
                n == names@.len(),
                c == n,
                x == modal_x(width as int, w as int),
                y == modal_y(height as int, h as int),
                layout_fits(height as int, width as int, w as int, h as int, n as int),
                0 <= i <= n,
                files@.len() == i,
                forall|k: int|
                    0 <= k < i ==> (#[trigger] files@[k]) == (FileBox {
                        file: names@[k],
                        height: box_height(h as int, n as int) as i32,
                        width: w,
                        index: k as i32,
                        x: x,
                        y: (y + k * box_height(h as int, n as int)) as i32,
                    }),
            decreases n - i,
        {
            let fifth = h / 5;
            let share = h / c;
            let bh = if fifth <= share {
                fifth
            } else {
                share
            };
            assert(fits_i32(i * box_height(h as int, n as int)));
            let name = names[i].clone();
            files.push(FileBox::build(name, x, y, bh, w, i == 0, i as i32));
            i += 1;
        }
        ImportModal { files: files, rect: r, visible: false, cur_sel: 0 }
    }
    /// Whether a chooser of `w` by `h` pixels, centred on a `width` by
    /// `height` screen and listing `count` files, can be laid out: the test
    /// that `build` needs to have passed.
    pub fn fits_layout(height: i32, width: i32, w: i32, h: i32, count: usize) -> (b: bool)
        ensures
            b == layout_fits(height as int, width as int, w as int, h as int, count as int),
    {
        if count > i32::MAX as usize {
            return false;
        }
        let x = (width / 2) as i64 - (w / 2) as i64;
        let y = (height / 2) as i64 - (h / 2) as i64;
        if x < i32::MIN as i64 || x > i32::MAX as i64 || y < i32::MIN as i64 || y > i32::MAX as i64 {
            return false;
        }
        if count == 0 {
            return true;
        }
        let c = count as i32;
        let fifth = h / 5;
        let share = h / c;
        let bh: i64 = if fifth <= share {
            fifth as i64
        } else {
            share as i64
        };
        assert(bh == box_height(h as int, count as int));
        let mut i: i64 = 0;
        while i < c as i64
            invariant
                0 <= i <= c,
                c == count,
                count <= i32::MAX,
                i32::MIN <= bh <= i32::MAX,
                bh == box_height(h as int, count as int),
                y == modal_y(height as int, h as int),
                fits_i32(y as int),
                fits_i32(modal_x(width as int, w as int)),
                forall|k: int|
                    0 <= k < i ==> fits_i32(#[trigger] (k * box_height(h as int, count as int)))
                        && fits_i32(modal_y(height as int, h as int) + k * box_height(
                        h as int,
                        count as int,
                    )),
            decreases c - i,
        {
            assert(-0x4000_0000_0000_0000 <= i * bh <= 0x4000_0000_0000_0000) by (nonlinear_arith)
                requires
                    0 <= i <= 0x7fff_ffff,
                    -0x8000_0000 <= bh <= 0x7fff_ffff,
            ;
            let off = i * bh;
            if off < i32::MIN as i64 || off > i32::MAX as i64 || y + off < i32::MIN as i64 || y
                + off > i32::MAX as i64 {
                return false;
            }
            i += 1;
        }
        true
    }

    /// Whether the chooser is shown.
    pub fn get_visible(&self) -> (b: bool)
        ensures
            b == self.shown(),
    {
        self.visible
    }

    /// The name of the selected file.
    pub fn get_chosen_file(&self) -> (name: &str)
        requires
            self.entries().len() > 0,
        ensures
            0 <= self.selection() < self.entries().len(),
            name@ == self.entries()[self.selection()].file@,
    {
        proof {
            use_type_invariant(self);
        }
        self.files[self.cur_sel as usize].file.as_str()
    }

    /// Shows the chooser if it was hidden, hides it if it was shown.
    pub fn toggle(&mut self)
        ensures
            final(self).shown() == !old(self).shown(),
            final(self).entries() == old(self).entries(),
            final(self).frame() == old(self).frame(),
            final(self).selection() == old(self).selection(),
    {
        proof {
            use_type_invariant(&*self);
        }
        self.visible = !self.visible;
    }

    /// Selects the next entry, staying on the last one at the bottom of the
    /// list. There must be an entry to select.
    pub fn down(&mut self)
        requires
            old(self).entries().len() > 0,
        ensures
            final(self).selection() == selection_down(
                old(self).selection(),
                old(self).entries().len() as int,
            ),
            final(self).shown() == old(self).shown(),
            final(self).entries() == old(self).entries(),
            final(self).frame() == old(self).frame(),
    {
        proof {
            use_type_invariant(&*self);
        }
        let last = self.files.len() as i32 - 1;
        let next = self.cur_sel + 1;
        self.cur_sel = if last <= next {
            last
        } else {
            next
        };
    }

    /// Selects the previous entry, staying on the first one at the top of the
    /// list. There must be an entry to select.
    pub fn up(&mut self)
        requires
            old(self).entries().len() > 0,
        ensures
            final(self).selection() == selection_up(old(self).selection()),
            final(self).shown() == old(self).shown(),
            final(self).entries() == old(self).entries(),
            final(self).frame() == old(self).frame(),
    {
        proof {
            use_type_invariant(&*self);
        }
        let prev = self.cur_sel - 1;
        self.cur_sel = if prev <= 0 {
            0
        } else {
            prev
        };
    }

    /// The entries listed, top to bottom.
    pub fn files(&self) -> (r: &Vec<FileBox>)
        ensures
            r@ == self.entries(),
            r@.len() <= i32::MAX,
    {
        proof {
            use_type_invariant(self);
        }
        &self.files
    }

    /// The frame the chooser is drawn in.
    pub fn rect(&self) -> (r: Rect)
        ensures
            r == self.frame(),
    {
        self.rect
    }

    /// The position of the selected entry.
    pub fn cur_sel(&self) -> (r: i32)
        ensures
            r == self.selection(),
            self.entries().len() > 0 ==> 0 <= r < self.entries().len(),
            self.entries().len() == 0 ==> r == 0,
    {
        proof {
            use_type_invariant(self);
        }
        self.cur_sel
    }
}

} // verus!
