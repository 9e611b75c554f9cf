//! What the first-run wizard and the time picker draw.
use vstd::prelude::*;

use crate::draw::{Base, Face, Frame, Op, Rect, Sheet, INSET};
use crate::firstrun::{code_of, name_of, FirstRun, TimePicker};
use crate::input::Refresh;
use crate::text;
use crate::text::same;
use crate::widgets;
use crate::widgets::{Measured, RowState, SettingValue, CONTENT_TOP};

verus! {

/// How many lines a text of the wizard has at most.
pub const FEW_LINES: usize = 0x400;

/// How many free books the wizard lists at most.
pub const MANY_BOOKS: usize = 0x400;

/// How many lines the tips have together at most.
pub const TIP_LINES: usize = 0x3000;

/// The time page's paragraph.
pub const TIME_TEXT: &'static str = "Set the clock so your reading stats have days. Wi-Fi sets it automatically later.";

/// The books page's paragraph.
pub const BOOKS_TEXT: &'static str = "The card starts empty. Get free books from the Bookshop, or drop your own from your phone.";

/// The books page's hint beside the address.
pub const DROP_TEXT: &'static str = "Drop: press Up, then scan and drag books onto the page.";

/// How many tips the "This is your reader" page gives.
pub const TIPS: usize = 6;

/// The tips of the "This is your reader" page.
pub open spec fn tip_text(i: int) -> Seq<char> {
    if i == 0 {
        "The book is the home screen: wake and you are on your page."@
    } else if i == 1 {
        "Labels sit where the keys are. Back opens Home; Confirm opens the compass."@
    } else if i == 2 {
        "The strip at the right is the Spine: how much is under your thumb. Hold Right to skim it."@
    } else if i == 3 {
        "Progress is time, not percent."@
    } else if i == 4 {
        "Type on your phone whenever a keyboard appears."@
    } else {
        "Long-press Back anywhere for Jump: everything in one list."@
    }
}

/// Tip `i` of the "This is your reader" page.
pub fn tip(i: usize) -> (r: &'static str)
    requires
        i < TIPS,
    ensures
        r@ == tip_text(i as int),
{
    match i {
        0 => "The book is the home screen: wake and you are on your page.",
        1 => "Labels sit where the keys are. Back opens Home; Confirm opens the compass.",
        2 => "The strip at the right is the Spine: how much is under your thumb. Hold Right to skim it.",
        3 => "Progress is time, not percent.",
        4 => "Type on your phone whenever a keyboard appears.",
        _ => "Long-press Back anywhere for Jump: everything in one list.",
    }
}

/// The paragraph of a page; the empty text where it has none.
pub open spec fn paragraph_text(page: int) -> Seq<char> {
    if page == 1 {
        TIME_TEXT@
    } else if page == 3 {
        BOOKS_TEXT@
    } else {
        ""@
    }
}

/// A free book to start with: title, author, and how long it takes, measured in mono.
#[derive(Clone, Debug, PartialEq, Eq)]
pub struct StartHere {
    /// Title.
    pub title: String,
    /// Author.
    pub author: String,
    /// Hours.
    pub hours: Measured,
}

/// What the wizard's pages show that the platform makes: wrapped and measured texts.
pub struct WizardTexts {
    /// Width of the page number in mono.
    pub number_w: i32,
    /// Width of the check mark in mono.
    pub check_w: i32,
    /// The page's paragraph, [`FirstRun::paragraph`], wrapped between the insets in body text.
    pub lines: Vec<String>,
    /// The date, and its width in mono.
    pub date: Measured,
    /// The time, and its width in mono.
    pub time: Measured,
    /// The tips, [`tip`], each wrapped between the insets in the label face.
    pub tips: Vec<Vec<String>>,
    /// The free books.
    pub start_here: Vec<StartHere>,
    /// The Drop page's address, without its scheme.
    pub address: String,
    /// The size of the address as a code at four dots a module, if it could be made one.
    pub code: Option<i32>,
    /// The Drop hint, [`DROP_TEXT`], wrapped into what is left beside the code.
    pub hint: Vec<String>,
}

impl WizardTexts {
    /// Whether everything is of a size that fits on a panel.
    pub open spec fn wf(self) -> bool {
        &&& 0 <= self.number_w <= 0x10_0000
        &&& 0 <= self.check_w <= 0x10_0000
        &&& self.lines@.len() <= FEW_LINES
        &&& self.date.wf()
        &&& self.time.wf()
        &&& self.tips@.len() <= widgets::MAX_LINES
        &&& forall|i: int| 0 <= i < self.tips@.len() ==> (#[trigger] self.tips@[i])@.len() <= widgets::MAX_LINES
        &&& lines_of(self.tips@, self.tips@.len() as int) <= TIP_LINES
        &&& self.start_here@.len() <= MANY_BOOKS
        &&& forall|i: int| 0 <= i < self.start_here@.len() ==> (#[trigger] self.start_here@[i]).hours.wf()
        &&& self.code matches Some(q) ==> 0 <= q <= 0x1_0000
        &&& self.hint@.len() <= FEW_LINES
    }
}

/// How many lines the first `k` paragraphs have together.
pub open spec fn lines_of(paras: Seq<Vec<String>>, k: int) -> int
    decreases k,
{
    if k <= 0 {
        0
    } else {
        lines_of(paras, k - 1) + paras[k - 1]@.len()
    }
}

proof fn lemma_lines_grow(paras: Seq<Vec<String>>, k: int, n: int)
    requires
        0 <= k <= n,
    ensures
        0 <= lines_of(paras, k) <= lines_of(paras, n),
    decreases n,
{
    if k < n {
        lemma_lines_grow(paras, k, n - 1);
    } else if k > 0 {
        lemma_lines_grow(paras, k - 1, n - 1);
    }
}

/// The state of a row, by whether it is focused.
pub open spec fn row_state(focused: bool) -> RowState {
    if focused {
        RowState::Focused
    } else {
        RowState::Normal
    }
}

/// The rows of the first `n` languages; the one in use has a check mark.
pub open spec fn language_rows(s: Sheet, y: int, focus: int, language: Seq<char>, check_w: int, n: int) -> Seq<Op<Seq<char>>>
    decreases n,
{
    if n <= 0 {
        Seq::empty()
    } else {
        let i = n - 1;
        let on = language == crate::firstrun::lang_code(i);
        language_rows(s, y, focus, language, check_w, n - 1) + widgets::row_ops(
            s,
            y + i * s.theme.row_h,
            s.theme.row_h as int,
            crate::firstrun::lang_name(i),
            None,
            Some(if on { ("✓"@, check_w) } else { (""@, 0int) }),
            row_state(focus == i),
        )
    }
}

/// What the language page draws.
pub open spec fn language_page(s: Sheet, focus: int, language: Seq<char>, t: WizardTexts) -> Seq<Op<Seq<char>>> {
    let b = s.faces.body;
    widgets::running_head_ops(s, "Welcome"@, Some(("1 / 4"@, t.number_w as int))) + seq![
        crate::draw::plain(
            Face::Body,
            INSET as int,
            crate::draw::at(CONTENT_TOP + b.ascent),
            "Choose a language for the reader."@,
            None,
            false,
        ),
    ] + language_rows(s, CONTENT_TOP + b.line_h + 12, focus, language, t.check_w as int, 4) + widgets::rail_ops(
        s,
        seq![""@, ""@, "Choose"@, "Next"@],
        None,
    )
}

/// A setting row that shows a plain text.
pub open spec fn text_row(s: Sheet, y: int, title: Seq<char>, value: Measured, state: RowState) -> Seq<Op<Seq<char>>> {
    widgets::setting_row_ops(
        s,
        y,
        s.theme.row_h as int,
        title,
        SettingValue::Text(value.text),
        value.width as int,
        state,
    )
}

/// What the time page draws.
pub open spec fn time_page(s: Sheet, t: WizardTexts) -> Seq<Op<Seq<char>>> {
    let b = s.faces.body;
    let n = t.lines@.len() as int;
    let y = CONTENT_TOP + n * b.line_h + 16;
    widgets::running_head_ops(s, "Time"@, Some(("2 / 4"@, t.number_w as int))) + widgets::plain_lines(
        Face::Body,
        INSET as int,
        CONTENT_TOP + b.ascent,
        b.line_h as int,
        text::texts(t.lines@),
        n,
    ) + text_row(s, y, "Date"@, t.date, RowState::Normal) + text_row(
        s,
        y + s.theme.row_h,
        "Time"@,
        t.time,
        RowState::Focused,
    ) + widgets::rail_ops(s, seq![""@, "Back"@, "Set"@, "Next"@], None)
}

/// Where paragraph `k` starts: each is followed by 4 px.
pub open spec fn para_y(y: int, line_h: int, paras: Seq<Vec<String>>, k: int) -> int
    decreases k,
{
    if k <= 0 {
        y
    } else {
        para_y(y, line_h, paras, k - 1) + paras[k - 1]@.len() * line_h + 4
    }
}

/// What the first `k` paragraphs draw.
pub open spec fn paras_ops(s: Sheet, y: int, paras: Seq<Vec<String>>, k: int) -> Seq<Op<Seq<char>>>
    decreases k,
{
    if k <= 0 {
        Seq::empty()
    } else {
        let l = s.faces.label;
        paras_ops(s, y, paras, k - 1) + widgets::plain_lines(
            Face::Label,
            INSET as int,
            para_y(y, l.line_h as int, paras, k - 1) + l.ascent,
            l.line_h as int,
            text::texts(paras[k - 1]@),
            paras[k - 1]@.len() as int,
        )
    }
}

/// What the "This is your reader" page draws.
pub open spec fn reader_page(s: Sheet, t: WizardTexts) -> Seq<Op<Seq<char>>> {
    widgets::running_head_ops(s, "This is your reader"@, Some(("3 / 4"@, t.number_w as int))) + seq![
        Op::Specimen(crate::draw::rect(INSET as int, CONTENT_TOP as int, s.w - 2 * INSET - 24, 220)),
        Op::SampleSpine(
            crate::draw::rect(s.w - s.theme.margin + 6, CONTENT_TOP as int, s.theme.spine_w as int, 220),
        ),
    ] + paras_ops(s, CONTENT_TOP + 240, t.tips@, t.tips@.len() as int) + widgets::rail_ops(
        s,
        seq![""@, "Back"@, ""@, "Next"@],
        None,
    )
}

/// The rows of the first `n` free books.
pub open spec fn start_rows(s: Sheet, y: int, books: Seq<StartHere>, n: int) -> Seq<Op<Seq<char>>>
    decreases n,
{
    if n <= 0 {
        Seq::empty()
    } else {
        let b = books[n - 1];
        start_rows(s, y, books, n - 1) + widgets::row_ops(
            s,
            y + (n - 1) * s.theme.row_h,
            s.theme.row_h as int,
            b.title@,
            Some(b.author@),
            Some((b.hours.text@, b.hours.width as int)),
            RowState::Normal,
        )
    }
}

/// What the address strip of the books page draws, from `y` down.
pub open spec fn address_ops(s: Sheet, y: int, t: WizardTexts) -> Seq<Op<Seq<char>>> {
    let size = match t.code {
        Some(q) => q as int,
        None => 0,
    };
    let x = INSET + size + 12;
    (match t.code {
        Some(_) => seq![Op::Code(INSET, y as i32, 4)],
        None => Seq::empty(),
    }) + seq![crate::draw::plain(Face::Body, x, crate::draw::at(y + 30), t.address@, None, false)]
        + widgets::plain_lines(
        Face::Label,
        x,
        y + 30 + s.faces.body.line_h,
        s.faces.label.line_h as int,
        text::texts(t.hint@),
        t.hint@.len() as int,
    )
}

/// What the books page draws.
pub open spec fn books_page(s: Sheet, t: WizardTexts) -> Seq<Op<Seq<char>>> {
    let (b, l) = (s.faces.body, s.faces.label);
    let n = t.lines@.len() as int;
    let y1 = CONTENT_TOP + n * b.line_h + 16;
    let y2 = y1 + l.line_h + 6;
    let y3 = y2 + t.start_here@.len() * s.theme.row_h + 16;
    widgets::running_head_ops(s, "Add books"@, Some(("4 / 4"@, t.number_w as int))) + widgets::plain_lines(
        Face::Body,
        INSET as int,
        CONTENT_TOP + b.ascent,
        b.line_h as int,
        text::texts(t.lines@),
        n,
    ) + seq![crate::draw::caps(INSET as int, y1 + l.ascent, "Free in the Bookshop"@, None, false)] + start_rows(
        s,
        y2,
        t.start_here@,
        t.start_here@.len() as int,
    ) + address_ops(s, y3, t) + widgets::rail_ops(s, seq![""@, "Back"@, "Bookshop"@, "Start"@], None)
}

/// What the wizard draws.
pub open spec fn wizard_ops(w: FirstRun, s: Sheet, language: Seq<char>, t: WizardTexts) -> Seq<Op<Seq<char>>> {
    if w.page == 0 {
        language_page(s, w.focus as int, language, t)
    } else if w.page == 1 {
        time_page(s, t)
    } else if w.page == 2 {
        reader_page(s, t)
    } else {
        books_page(s, t)
    }
}

fn head(f: &mut Frame, title: &str, number: &str, width: i32)
    requires
        old(f).sheet.wf(),
        0 <= width <= 0x10_0000,
    ensures
        final(f).sheet == old(f).sheet,
        final(f)@ == old(f)@ + widgets::running_head_ops(old(f).sheet, title@, Some((number@, width as int))),
{
    let m = Measured { text: text::owned(number), width };
    widgets::running_head(f, title, Some(&m));
}

fn language_list(f: &mut Frame, y: i32, focus: usize, language: &str, check_w: i32)
    requires
        old(f).sheet.wf(),
        0 <= y <= 0x10_0000,
        0 <= check_w <= 0x10_0000,
    ensures
        final(f).sheet == old(f).sheet,
        final(f)@ == old(f)@ + language_rows(old(f).sheet, y as int, focus as int, language@, check_w as int, 4),
{
    let row_h: i32 = f.sheet.theme.row_h;
    let mut i: usize = 0;
    assert(f@ =~= old(f)@ + language_rows(old(f).sheet, y as int, focus as int, language@, check_w as int, 0));
    while i < 4
        invariant
            i <= 4,
            old(f).sheet.wf(),
            row_h == old(f).sheet.theme.row_h,
            0 <= y <= 0x10_0000,
            0 <= check_w <= 0x10_0000,
            f.sheet == old(f).sheet,
            f@ == old(f)@ + language_rows(old(f).sheet, y as int, focus as int, language@, check_w as int, i as int),
        decreases 4 - i,
    {
        let on = same(language, code_of(i));
        let v = Measured { text: text::owned(if on { "✓" } else { "" }), width: if on { check_w } else { 0 } };
        assert(0 <= i * row_h <= 4 * row_h) by (nonlinear_arith)
            requires
                0 <= i <= 4,
                0 <= row_h,
        ;
        let state = if focus == i { RowState::Focused } else { RowState::Normal };
        widgets::row(f, y + i as i32 * row_h, row_h, name_of(i), None, Some(&v), state);
        assert(f@ =~= old(f)@ + language_rows(
            old(f).sheet,
            y as int,
            focus as int,
            language@,
            check_w as int,
            i + 1,
        ));
        i += 1;
    }
}

fn tips(f: &mut Frame, y: i32, paras: &Vec<Vec<String>>)
    requires
        old(f).sheet.wf(),
        0 <= y <= 0x10_0000,
        paras@.len() <= widgets::MAX_LINES,
        forall|i: int| 0 <= i < paras@.len() ==> (#[trigger] paras@[i])@.len() <= widgets::MAX_LINES,
        lines_of(paras@, paras@.len() as int) <= TIP_LINES,
    ensures
        final(f).sheet == old(f).sheet,
        final(f)@ == old(f)@ + paras_ops(old(f).sheet, y as int, paras@, paras@.len() as int),
{
    let l = f.sheet.faces.label;
    let mut yy: i32 = y;
    let mut k: usize = 0;
    assert(f@ =~= old(f)@ + paras_ops(old(f).sheet, y as int, paras@, 0));
    while k < paras.len()
        invariant
            k <= paras@.len() <= widgets::MAX_LINES,
            forall|i: int| 0 <= i < paras@.len() ==> (#[trigger] paras@[i])@.len() <= widgets::MAX_LINES,
            lines_of(paras@, paras@.len() as int) <= TIP_LINES,
            old(f).sheet.wf(),
            l == old(f).sheet.faces.label,
            0 <= y <= 0x10_0000,
            yy == para_y(y as int, l.line_h as int, paras@, k as int),
            yy == y + lines_of(paras@, k as int) * l.line_h + 4 * k,
            0 <= yy <= 0x310_0000 + 4 * k,
            f.sheet == old(f).sheet,
            f@ == old(f)@ + paras_ops(old(f).sheet, y as int, paras@, k as int),
        decreases paras@.len() - k,
    {
        assert(paras@[k as int]@.len() <= widgets::MAX_LINES);
        let n: usize = paras[k].len();
        proof {
            lemma_lines_grow(paras@, k as int, paras@.len() as int);
            lemma_lines_grow(paras@, k + 1, paras@.len() as int);
            let (a, b, h) = (lines_of(paras@, k as int), lines_of(paras@, k + 1), l.line_h as int);
            assert(b * h == a * h + n * h && 0 <= b * h <= 0x3000 * 0x1000 && 0 <= n * h <= 0x1000 * 0x1000) by (nonlinear_arith)
                requires
                    b == a + n,
                    0 <= b <= 0x3000,
                    0 <= n <= 0x1000,
                    0 <= h <= 0x1000,
            ;
        }
        widgets::draw_lines(f, Face::Label, INSET, yy + l.ascent, l.line_h, &paras[k]);
        assert(f@ =~= old(f)@ + paras_ops(old(f).sheet, y as int, paras@, k + 1));
        yy = yy + n as i32 * l.line_h + 4;
        k += 1;
    }
}

fn start_list(f: &mut Frame, y: i32, books: &Vec<StartHere>)
    requires
        old(f).sheet.wf(),
        0 <= y <= 0x80_0000,
        books@.len() <= MANY_BOOKS,
        forall|i: int| 0 <= i < books@.len() ==> (#[trigger] books@[i]).hours.wf(),
    ensures
        final(f).sheet == old(f).sheet,
        final(f)@ == old(f)@ + start_rows(old(f).sheet, y as int, books@, books@.len() as int),
{
    let row_h: i32 = f.sheet.theme.row_h;
    let mut i: usize = 0;
    assert(f@ =~= old(f)@ + start_rows(old(f).sheet, y as int, books@, 0));
    while i < books.len()
        invariant
            i <= books@.len() <= MANY_BOOKS,
            forall|j: int| 0 <= j < books@.len() ==> (#[trigger] books@[j]).hours.wf(),
            old(f).sheet.wf(),
            row_h == old(f).sheet.theme.row_h,
            0 <= y <= 0x80_0000,
            f.sheet == old(f).sheet,
            f@ == old(f)@ + start_rows(old(f).sheet, y as int, books@, i as int),
        decreases books@.len() - i,
    {
        assert(0 <= i * row_h <= 0x400 * 0x1000) by (nonlinear_arith)
            requires
                0 <= i <= 0x400,
                0 <= row_h <= 0x1000,
        ;
        assert(books@[i as int].hours.wf());
        let b = &books[i];
        widgets::row(f, y + i as i32 * row_h, row_h, &b.title, Some(&b.author), Some(&b.hours), RowState::Normal);
        assert(f@ =~= old(f)@ + start_rows(old(f).sheet, y as int, books@, i + 1));
        i += 1;
    }
}

fn address(f: &mut Frame, y: i32, t: &WizardTexts)
    requires
        old(f).sheet.wf(),
        0 <= y <= 0xC0_0000,
        t.wf(),
    ensures
        final(f).sheet == old(f).sheet,
        final(f)@ == old(f)@ + address_ops(old(f).sheet, y as int, *t),
{
    let mut size: i32 = 0;
    if let Some(q) = t.code {
        size = q;
        f.draw(Op::Code(INSET, y, 4));
    }
    let x: i32 = INSET + size + 12;
    f.text(Face::Body, x, Base::At(y + 30), &t.address, None, false);
    let b = f.sheet.faces.body;
    let l = f.sheet.faces.label;
    // Beside a code of unknown width: wrapped into whatever is left rather than running off the edge.
    widgets::draw_lines(f, Face::Label, x, y + 30 + b.line_h, l.line_h, &t.hint);
    assert(f@ =~= old(f)@ + address_ops(old(f).sheet, y as int, *t));
}

impl FirstRun {
    fn draw_language(&self, f: &mut Frame, language: &str, t: &WizardTexts)
        requires
            old(f).sheet.wf(),
            t.wf(),
        ensures
            final(f).sheet == old(f).sheet,
            final(f)@ == old(f)@ + language_page(old(f).sheet, self.focus as int, language@, *t),
    {
        let b = f.sheet.faces.body;
        head(f, "Welcome", "1 / 4", t.number_w);
        f.text(Face::Body, INSET, Base::At(CONTENT_TOP + b.ascent), "Choose a language for the reader.", None, false);
        language_list(f, CONTENT_TOP + b.line_h + 12, self.focus, language, t.check_w);
        widgets::rail(f, ["", "", "Choose", "Next"], None);
        assert(f@ =~= old(f)@ + language_page(old(f).sheet, self.focus as int, language@, *t));
    }

    fn draw_time(&self, f: &mut Frame, t: &WizardTexts)
        requires
            old(f).sheet.wf(),
            t.wf(),
        ensures
            final(f).sheet == old(f).sheet,
            final(f)@ == old(f)@ + time_page(old(f).sheet, *t),
    {
        let b = f.sheet.faces.body;
        let row_h: i32 = f.sheet.theme.row_h;
        head(f, "Time", "2 / 4", t.number_w);
        widgets::draw_lines(f, Face::Body, INSET, CONTENT_TOP + b.ascent, b.line_h, &t.lines);
        let y: i32 = CONTENT_TOP + widgets::lines_h(t.lines.len(), b.line_h) + 16;
        let date = SettingValue::Text(t.date.text.clone());
        let time = SettingValue::Text(t.time.text.clone());
        proof {
            let n = t.lines@.len();
            assert(n * b.line_h <= 0x400 * 0x1000) by (nonlinear_arith)
                requires
                    0 <= n <= 0x400,
                    0 <= b.line_h <= 0x1000,
            ;
        }
        widgets::setting_row(f, y, row_h, "Date", &date, t.date.width, RowState::Normal);
        widgets::setting_row(f, y + row_h, row_h, "Time", &time, t.time.width, RowState::Focused);
        widgets::rail(f, ["", "Back", "Set", "Next"], None);
        assert(f@ =~= old(f)@ + time_page(old(f).sheet, *t));
    }

    fn draw_reader(&self, f: &mut Frame, t: &WizardTexts)
        requires
            old(f).sheet.wf(),
            old(f).sheet.w >= 2 * INSET + 24,
            t.wf(),
        ensures
            final(f).sheet == old(f).sheet,
            final(f)@ == old(f)@ + reader_page(old(f).sheet, *t),
    {
        let w: i32 = f.width() as i32;
        let th = f.sheet.theme;
        head(f, "This is your reader", "3 / 4", t.number_w);
        f.draw(Op::Specimen(Rect::new(INSET, CONTENT_TOP, (w - 2 * INSET - 24) as u32, 220)));
        f.draw(Op::SampleSpine(Rect::new(w - th.margin + 6, CONTENT_TOP, th.spine_w, 220)));
        tips(f, CONTENT_TOP + 240, &t.tips);
        widgets::rail(f, ["", "Back", "", "Next"], None);
        assert(f@ =~= old(f)@ + reader_page(old(f).sheet, *t));
    }

    fn draw_books(&self, f: &mut Frame, t: &WizardTexts)
        requires
            old(f).sheet.wf(),
            t.wf(),
        ensures
            final(f).sheet == old(f).sheet,
            final(f)@ == old(f)@ + books_page(old(f).sheet, *t),
    {
        let b = f.sheet.faces.body;
        let l = f.sheet.faces.label;
        let row_h: i32 = f.sheet.theme.row_h;
        proof {
            let n = t.lines@.len();
            assert(n * b.line_h <= 0x400 * 0x1000) by (nonlinear_arith)
                requires
                    0 <= n <= 0x400,
                    0 <= b.line_h <= 0x1000,
            ;
            let m = t.start_here@.len();
            assert(0 <= m * row_h <= 0x400 * 0x1000) by (nonlinear_arith)
                requires
                    0 <= m <= 0x400,
                    0 <= row_h <= 0x1000,
            ;
        }
        head(f, "Add books", "4 / 4", t.number_w);
        widgets::draw_lines(f, Face::Body, INSET, CONTENT_TOP + b.ascent, b.line_h, &t.lines);
        let y1: i32 = CONTENT_TOP + widgets::lines_h(t.lines.len(), b.line_h) + 16;
        f.label(INSET, y1 + l.ascent, "Free in the Bookshop", None, false);
        let y2: i32 = y1 + l.line_h + 6;
        start_list(f, y2, &t.start_here);
        let y3: i32 = y2 + t.start_here.len() as i32 * row_h + 16;
        address(f, y3, t);
        // "Start reading" does not fit a rail cell.
        widgets::rail(f, ["", "Back", "Bookshop", "Start"], None);
        assert(f@ =~= old(f)@ + books_page(old(f).sheet, *t));
    }

    /// The paragraph of the page shown, to be wrapped; the empty text where it has none.
    pub fn paragraph(&self) -> (r: &'static str)
        ensures
            r@ == paragraph_text(self.page as int),
    {
        match self.page {
            1 => TIME_TEXT,
            3 => BOOKS_TEXT,
            _ => "",
        }
    }

    /// Draw the page shown. `language` is the code in use.
    pub fn draw(&self, f: &mut Frame, language: &str, t: &WizardTexts) -> (r: Refresh)
        requires
            old(f).sheet.wf(),
            old(f).sheet.w >= 2 * INSET + 24,
            t.wf(),
        ensures
            r == Refresh::Gc,
            final(f).sheet == old(f).sheet,
            final(f)@ == old(f)@ + wizard_ops(*self, old(f).sheet, language@, *t),
    {
        match self.page {
            0 => self.draw_language(f, language, t),
            1 => self.draw_time(f, t),
            2 => self.draw_reader(f, t),
            _ => self.draw_books(f, t),
        }
        Refresh::Gc
    }
}

/// The name of field `i` of the time picker.
pub open spec fn field_name(i: int) -> Seq<char> {
    if i == 0 {
        "Year"@
    } else if i == 1 {
        "Month"@
    } else if i == 2 {
        "Day"@
    } else if i == 3 {
        "Hour"@
    } else {
        "Minute"@
    }
}

/// The text of field `i`: the month by its name, the others as numbers of two digits at least.
pub open spec fn field_text(p: TimePicker, month: Seq<char>, i: int) -> Seq<char> {
    if i == 1 {
        month
    } else {
        text::two_digits(p.field(i) as nat)
    }
}

/// What a stepper row draws.
pub open spec fn stepper_ops(s: Sheet, y: int, title: Seq<char>, value: Seq<char>, tw: int, focused: bool) -> Seq<Op<Seq<char>>> {
    let h = s.theme.row_h as int;
    let pad = s.theme.row_pad as int;
    seq![
        crate::draw::fill(0, y, s.w as int, h, widgets::row_paper(focused)),
        crate::draw::plain(
            Face::Mono,
            s.w - pad - tw,
            crate::draw::mid(y, h),
            "‹ "@ + value + " ›"@,
            None,
            focused,
        ),
        crate::draw::plain(Face::Body, pad, crate::draw::mid(y, h), title, Some(s.w - 2 * pad - (tw + 16)), focused),
    ] + widgets::row_end_ops(s, y, h, row_state(focused))
}

/// What the first `n` fields of the time picker draw.
pub open spec fn fields_ops(p: TimePicker, s: Sheet, month: Seq<char>, widths: Seq<i32>, n: int) -> Seq<Op<Seq<char>>>
    decreases n,
{
    if n <= 0 {
        Seq::empty()
    } else {
        let i = n - 1;
        fields_ops(p, s, month, widths, n - 1) + stepper_ops(
            s,
            CONTENT_TOP + i * s.theme.row_h,
            field_name(i),
            field_text(p, month, i),
            widths[i] as int,
            p.focus == i,
        )
    }
}

/// What the time picker draws.
pub open spec fn picker_ops(p: TimePicker, s: Sheet, month: Seq<char>, widths: Seq<i32>) -> Seq<Op<Seq<char>>> {
    widgets::running_head_ops(s, "Set the time"@, None) + fields_ops(p, s, month, widths, 5) + widgets::rail_ops(
        s,
        seq![""@, "Cancel"@, "Set"@, ""@],
        None,
    )
}

fn stepper(f: &mut Frame, y: i32, title: &str, value: String, tw: i32, focused: bool)
    requires
        old(f).sheet.wf(),
        crate::draw::sane(y as int),
        0 <= tw <= 0x10_0000,
    ensures
        final(f).sheet == old(f).sheet,
        final(f)@ == old(f)@ + stepper_ops(old(f).sheet, y as int, title@, value@, tw as int, focused),
{
    let row_h: i32 = f.sheet.theme.row_h;
    let v = SettingValue::Stepper(value);
    widgets::setting_row(f, y, row_h, title, &v, tw, if focused { RowState::Focused } else { RowState::Normal });
    assert(f@ =~= old(f)@ + stepper_ops(old(f).sheet, y as int, title@, value@, tw as int, focused));
}

impl TimePicker {
    fn value(&self, i: usize, month: &str) -> (r: String)
        requires
            self.wf(),
        ensures
            r@ == field_text(*self, month@, i as int),
    {
        match i {
            0 => text::number02(self.year as u64),
            1 => text::owned(month),
            2 => text::number02(self.day as u64),
            3 => text::number02(self.hour as u64),
            _ => text::number02(self.minute as u64),
        }
    }

    /// Draw the picker. `month` is the month's name, `widths` the widths of
    /// the fields' steppers in mono.
    pub fn draw(&self, f: &mut Frame, month: &str, widths: [i32; 5]) -> (r: Refresh)
        requires
            old(f).sheet.wf(),
            self.wf(),
            forall|i: int| 0 <= i < 5 ==> 0 <= #[trigger] widths@[i] <= 0x10_0000,
        ensures
            r == Refresh::Gc,
            final(f).sheet == old(f).sheet,
            final(f)@ == old(f)@ + picker_ops(*self, old(f).sheet, month@, widths@),
    {
        widgets::running_head(f, "Set the time", None);
        let row_h: i32 = f.sheet.theme.row_h;
        let ghost before = f@;
        let mut i: usize = 0;
        assert(f@ =~= before + fields_ops(*self, old(f).sheet, month@, widths@, 0));
        while i < 5
            invariant
                i <= 5,
                old(f).sheet.wf(),
                self.wf(),
                row_h == old(f).sheet.theme.row_h,
                forall|j: int| 0 <= j < 5 ==> 0 <= #[trigger] widths@[j] <= 0x10_0000,
                f.sheet == old(f).sheet,
                f@ == before + fields_ops(*self, old(f).sheet, month@, widths@, i as int),
            decreases 5 - i,
        {
            let name = match i {
                0 => "Year",
                1 => "Month",
                2 => "Day",
                3 => "Hour",
                _ => "Minute",
            };
            assert(0 <= i * row_h <= 5 * row_h) by (nonlinear_arith)
                requires
                    0 <= i <= 5,
                    0 <= row_h,
            ;
            let v = self.value(i, month);
            assert(0 <= widths@[i as int] <= 0x10_0000);
            stepper(f, CONTENT_TOP + i as i32 * row_h, name, v, widths[i], self.focus == i);
            assert(f@ =~= before + fields_ops(*self, old(f).sheet, month@, widths@, i + 1));
            i += 1;
        }
        widgets::rail(f, ["", "Cancel", "Set", ""], None);
        assert(f@ =~= old(f)@ + picker_ops(*self, old(f).sheet, month@, widths@));
        Refresh::Gc
    }
}

proof fn lemma_languages_show(s: Sheet, y: int, focus: int, language: Seq<char>, check_w: int, n: int, i: int)
    requires
        0 <= i < n,
    ensures
        crate::draw::shows(language_rows(s, y, focus, language, check_w, n), crate::firstrun::lang_name(i)),
        language == crate::firstrun::lang_code(i) ==> crate::draw::shows(
            language_rows(s, y, focus, language, check_w, n),
            "✓"@,
        ),
    decreases n,
{
    broadcast use {
        crate::draw::lemma_shows_in_two,
        crate::draw::lemma_shows_pushed,
        crate::draw::lemma_shows_between_two,
        crate::draw::lemma_shows_between_pushed,
        crate::draw::lemma_written_in_two,
        crate::draw::lemma_written_pushed,
        crate::draw::lemma_draws_in_two,
        crate::draw::lemma_draws_pushed,
    };
    let on = language == crate::firstrun::lang_code(n - 1);
    widgets::law_rows_say_what_they_are_given(
        s,
        y + (n - 1) * s.theme.row_h,
        s.theme.row_h as int,
        crate::firstrun::lang_name(n - 1),
        None,
        Some(if on { ("✓"@, check_w) } else { (""@, 0int) }),
        row_state(focus == n - 1),
    );
    if i < n - 1 {
        lemma_languages_show(s, y, focus, language, check_w, n - 1, i);
    }
}

/// The first page of the wizard offers every language by its name, and marks the one that is set.
pub proof fn law_first_page_offers_the_languages(w: FirstRun, s: Sheet, language: Seq<char>, t: WizardTexts, i: int)
    requires
        w.page == 0,
        0 <= i < 4,
    ensures
        crate::draw::shows(wizard_ops(w, s, language, t), crate::firstrun::lang_name(i)),
        language == crate::firstrun::lang_code(i) ==> crate::draw::shows(wizard_ops(w, s, language, t), "✓"@),
        crate::draw::shows(wizard_ops(w, s, language, t), "1 / 4"@),
{
    broadcast use {
        crate::draw::lemma_shows_in_two,
        crate::draw::lemma_shows_pushed,
        crate::draw::lemma_shows_between_two,
        crate::draw::lemma_shows_between_pushed,
        crate::draw::lemma_written_in_two,
        crate::draw::lemma_written_pushed,
        crate::draw::lemma_draws_in_two,
        crate::draw::lemma_draws_pushed,
    };
    let y = CONTENT_TOP + s.faces.body.line_h + 12;
    lemma_languages_show(s, y, w.focus as int, language, t.check_w as int, 4, i);
    widgets::law_heads_say_their_title(s, "Welcome"@, Some(("1 / 4"@, t.number_w as int)), Seq::empty(), Seq::empty());
}

proof fn lemma_text_row(s: Sheet, y: int, title: Seq<char>, value: Measured, state: RowState)
    ensures
        crate::draw::shows(text_row(s, y, title, value, state), title),
        crate::draw::shows(text_row(s, y, title, value, state), value.text@),
{
    broadcast use {
        crate::draw::lemma_shows_in_two,
        crate::draw::lemma_shows_pushed,
        crate::draw::lemma_shows_between_two,
        crate::draw::lemma_shows_between_pushed,
        crate::draw::lemma_written_in_two,
        crate::draw::lemma_written_pushed,
        crate::draw::lemma_draws_in_two,
        crate::draw::lemma_draws_pushed,
    };
}

/// The second page shows the date and the time, and the third says how the reader is used.
pub proof fn law_middle_pages_show_the_clock_and_the_tips(w: FirstRun, s: Sheet, language: Seq<char>, t: WizardTexts, p: int, k: int)
    requires
        0 <= p < t.tips@.len(),
        0 <= k < t.tips@[p]@.len(),
    ensures
        w.page == 1 ==> crate::draw::shows(wizard_ops(w, s, language, t), t.date.text@) && crate::draw::shows(
            wizard_ops(w, s, language, t),
            t.time.text@,
        ) && crate::draw::shows(wizard_ops(w, s, language, t), "2 / 4"@),
        w.page == 2 ==> crate::draw::shows(wizard_ops(w, s, language, t), t.tips@[p]@[k]@) && crate::draw::shows(
            wizard_ops(w, s, language, t),
            "3 / 4"@,
        ),
{
    broadcast use {
        crate::draw::lemma_shows_in_two,
        crate::draw::lemma_shows_pushed,
        crate::draw::lemma_shows_between_two,
        crate::draw::lemma_shows_between_pushed,
        crate::draw::lemma_written_in_two,
        crate::draw::lemma_written_pushed,
        crate::draw::lemma_draws_in_two,
        crate::draw::lemma_draws_pushed,
    };
    let y = CONTENT_TOP + t.lines@.len() as int * s.faces.body.line_h + 16;
    lemma_text_row(s, y, "Date"@, t.date, RowState::Normal);
    lemma_text_row(s, y + s.theme.row_h, "Time"@, t.time, RowState::Focused);
    widgets::law_heads_say_their_title(s, "Time"@, Some(("2 / 4"@, t.number_w as int)), Seq::empty(), Seq::empty());
    widgets::law_heads_say_their_title(
        s,
        "This is your reader"@,
        Some(("3 / 4"@, t.number_w as int)),
        Seq::empty(),
        Seq::empty(),
    );
    lemma_paras_show(s, CONTENT_TOP + 240, t.tips@, t.tips@.len() as int, p, k);
}

proof fn lemma_paras_show(s: Sheet, y: int, paras: Seq<Vec<String>>, n: int, p: int, k: int)
    requires
        0 <= p < n <= paras.len(),
        0 <= k < paras[p]@.len(),
    ensures
        crate::draw::shows(paras_ops(s, y, paras, n), paras[p]@[k]@),
    decreases n,
{
    broadcast use {
        crate::draw::lemma_shows_in_two,
        crate::draw::lemma_shows_pushed,
        crate::draw::lemma_shows_between_two,
        crate::draw::lemma_shows_between_pushed,
        crate::draw::lemma_written_in_two,
        crate::draw::lemma_written_pushed,
        crate::draw::lemma_draws_in_two,
        crate::draw::lemma_draws_pushed,
    };
    if p < n - 1 {
        lemma_paras_show(s, y, paras, n - 1, p, k);
    } else {
        let l = s.faces.label;
        assert(text::texts(paras[p]@)[k] == paras[p]@[k]@);
        widgets::law_lines_are_all_written(
            Face::Label,
            INSET as int,
            para_y(y, l.line_h as int, paras, n - 1) + l.ascent,
            l.line_h as int,
            text::texts(paras[p]@),
            paras[p]@.len() as int,
            k,
        );
    }
}

proof fn lemma_start_rows_show(s: Sheet, y: int, books: Seq<StartHere>, n: int, i: int)
    requires
        0 <= i < n <= books.len(),
    ensures
        crate::draw::shows(start_rows(s, y, books, n), books[i].title@),
        crate::draw::shows(start_rows(s, y, books, n), books[i].author@),
    decreases n,
{
    broadcast use {
        crate::draw::lemma_shows_in_two,
        crate::draw::lemma_shows_pushed,
        crate::draw::lemma_shows_between_two,
        crate::draw::lemma_shows_between_pushed,
        crate::draw::lemma_written_in_two,
        crate::draw::lemma_written_pushed,
        crate::draw::lemma_draws_in_two,
        crate::draw::lemma_draws_pushed,
    };
    let b = books[n - 1];
    widgets::law_rows_say_what_they_are_given(
        s,
        y + (n - 1) * s.theme.row_h,
        s.theme.row_h as int,
        b.title@,
        Some(b.author@),
        Some((b.hours.text@, b.hours.width as int)),
        RowState::Normal,
    );
    if i < n - 1 {
        lemma_start_rows_show(s, y, books, n - 1, i);
    }
}

/// The last page offers the books there are to start with, by title and author, and the address to drop others at.
pub proof fn law_last_page_offers_books(w: FirstRun, s: Sheet, language: Seq<char>, t: WizardTexts, i: int)
    requires
        w.page == 3,
        0 <= i < t.start_here@.len(),
    ensures
        crate::draw::shows(wizard_ops(w, s, language, t), t.start_here@[i].title@),
        crate::draw::shows(wizard_ops(w, s, language, t), t.start_here@[i].author@),
        crate::draw::shows(wizard_ops(w, s, language, t), t.address@),
        crate::draw::shows(wizard_ops(w, s, language, t), "4 / 4"@),
{
    broadcast use {
        crate::draw::lemma_shows_in_two,
        crate::draw::lemma_shows_pushed,
        crate::draw::lemma_shows_between_two,
        crate::draw::lemma_shows_between_pushed,
        crate::draw::lemma_written_in_two,
        crate::draw::lemma_written_pushed,
        crate::draw::lemma_draws_in_two,
        crate::draw::lemma_draws_pushed,
    };
    let y1 = CONTENT_TOP + t.lines@.len() as int * s.faces.body.line_h + 16;
    let y2 = y1 + s.faces.label.line_h + 6;
    lemma_start_rows_show(s, y2, t.start_here@, t.start_here@.len() as int, i);
    widgets::law_heads_say_their_title(s, "Add books"@, Some(("4 / 4"@, t.number_w as int)), Seq::empty(), Seq::empty());
}

proof fn lemma_fields_show(p: TimePicker, s: Sheet, month: Seq<char>, widths: Seq<i32>, n: int, i: int)
    requires
        0 <= i < n,
    ensures
        crate::draw::shows(fields_ops(p, s, month, widths, n), field_name(i)),
        crate::draw::shows(fields_ops(p, s, month, widths, n), "‹ "@ + field_text(p, month, i) + " ›"@),
    decreases n,
{
    broadcast use {
        crate::draw::lemma_shows_in_two,
        crate::draw::lemma_shows_pushed,
        crate::draw::lemma_shows_between_two,
        crate::draw::lemma_shows_between_pushed,
        crate::draw::lemma_written_in_two,
        crate::draw::lemma_written_pushed,
        crate::draw::lemma_draws_in_two,
        crate::draw::lemma_draws_pushed,
    };
    if i < n - 1 {
        lemma_fields_show(p, s, month, widths, n - 1, i);
    }
}

/// The clock is set field by field: each is shown by its name with its value, the month by its own name and the others
/// in two digits at least.
pub proof fn law_picker_shows_its_fields(p: TimePicker, s: Sheet, month: Seq<char>, widths: Seq<i32>, i: int)
    requires
        p.wf(),
        0 <= i < 5,
    ensures
        crate::draw::shows(picker_ops(p, s, month, widths), field_name(i)),
        crate::draw::shows(picker_ops(p, s, month, widths), "‹ "@ + field_text(p, month, i) + " ›"@),
        field_text(p, month, 1) == month,
        field_text(p, month, 3) == text::two_digits(p.hour as nat),
        field_text(p, month, 4) == text::two_digits(p.minute as nat),
        field_text(p, month, 2) == text::two_digits(p.day as nat),
        field_text(p, month, 0) == text::two_digits(p.year as nat),
        field_name(0) == "Year"@ && field_name(1) == "Month"@ && field_name(2) == "Day"@ && field_name(3) == "Hour"@ && field_name(4)
            == "Minute"@,
{
    broadcast use {
        crate::draw::lemma_shows_in_two,
        crate::draw::lemma_shows_pushed,
        crate::draw::lemma_shows_between_two,
        crate::draw::lemma_shows_between_pushed,
        crate::draw::lemma_written_in_two,
        crate::draw::lemma_written_pushed,
        crate::draw::lemma_draws_in_two,
        crate::draw::lemma_draws_pushed,
    };
    lemma_fields_show(p, s, month, widths, 5, i);
}

/// The wizard says over the keys where they lead: back but on the first page, on to the next page, and on the last one
/// to the Bookshop or to the start.
pub proof fn law_wizard_says_its_keys(w: FirstRun, s: Sheet, language: Seq<char>, t: WizardTexts)
    requires
        s.wf(),
        w.page < 4,
    ensures
        ({
            let ops = wizard_ops(w, s, language, t);
            let cell = s.w as int / 4;
            &&& w.page > 0 ==> crate::draw::shows_between(ops, "Back"@, cell, 2 * cell)
            &&& w.page == 0 ==> crate::draw::shows_between(ops, "Choose"@, 2 * cell, 3 * cell)
            &&& w.page == 1 ==> crate::draw::shows_between(ops, "Set"@, 2 * cell, 3 * cell)
            &&& w.page == 3 ==> crate::draw::shows_between(ops, "Bookshop"@, 2 * cell, 3 * cell)
            &&& w.page < 3 ==> crate::draw::shows_between(ops, "Next"@, 3 * cell, 4 * cell)
            &&& w.page == 3 ==> crate::draw::shows_between(ops, "Start"@, 3 * cell, 4 * cell)
        }),
{
    broadcast use {
        crate::draw::lemma_shows_in_two,
        crate::draw::lemma_shows_pushed,
        crate::draw::lemma_shows_between_two,
        crate::draw::lemma_shows_between_pushed,
        crate::draw::lemma_written_in_two,
        crate::draw::lemma_written_pushed,
        crate::draw::lemma_draws_in_two,
        crate::draw::lemma_draws_pushed,
    };
    reveal_strlit("Back");
    reveal_strlit("Choose");
    reveal_strlit("Set");
    reveal_strlit("Bookshop");
    reveal_strlit("Next");
    reveal_strlit("Start");
    reveal_strlit("—");
    assert("—"@.len() == 1 && "Back"@.len() == 4 && "Choose"@.len() == 6 && "Set"@.len() == 3 && "Bookshop"@.len() == 8 && "Next"@.len()
        == 4 && "Start"@.len() == 5);
    let labels = if w.page == 0 {
        seq![""@, ""@, "Choose"@, "Next"@]
    } else if w.page == 1 {
        seq![""@, "Back"@, "Set"@, "Next"@]
    } else if w.page == 2 {
        seq![""@, "Back"@, ""@, "Next"@]
    } else {
        seq![""@, "Back"@, "Bookshop"@, "Start"@]
    };
    if w.page > 0 {
        widgets::law_rail_labels_stand_over_their_keys(s, labels, None, 1);
    }
    if w.page != 2 {
        widgets::law_rail_labels_stand_over_their_keys(s, labels, None, 2);
    }
    widgets::law_rail_labels_stand_over_their_keys(s, labels, None, 3);
}

/// The clock says over the keys how to set it and how to leave it.
pub proof fn law_picker_says_its_keys(p: TimePicker, s: Sheet, month: Seq<char>, widths: Seq<i32>)
    requires
        s.wf(),
    ensures
        crate::draw::shows_between(picker_ops(p, s, month, widths), "Cancel"@, s.w as int / 4, 2 * (s.w as int / 4)),
        crate::draw::shows_between(picker_ops(p, s, month, widths), "Set"@, 2 * (s.w as int / 4), 3 * (s.w as int / 4)),
        crate::draw::shows(picker_ops(p, s, month, widths), "Set the time"@),
{
    broadcast use {
        crate::draw::lemma_shows_in_two,
        crate::draw::lemma_shows_pushed,
        crate::draw::lemma_shows_between_two,
        crate::draw::lemma_shows_between_pushed,
        crate::draw::lemma_written_in_two,
        crate::draw::lemma_written_pushed,
        crate::draw::lemma_draws_in_two,
        crate::draw::lemma_draws_pushed,
    };
    reveal_strlit("Cancel");
    reveal_strlit("Set");
    reveal_strlit("—");
    assert("—"@.len() == 1 && "Cancel"@.len() == 6 && "Set"@.len() == 3);
    let labels = seq![""@, "Cancel"@, "Set"@, ""@];
    widgets::law_rail_labels_stand_over_their_keys(s, labels, None, 1);
    widgets::law_rail_labels_stand_over_their_keys(s, labels, None, 2);
    widgets::law_heads_say_their_title(s, "Set the time"@, None, Seq::empty(), Seq::empty());
}

/// The field that is stepped is white on black, and no other.
pub proof fn law_stepped_field_stands_out(s: Sheet, y: int, title: Seq<char>, value: Seq<char>, tw: int, focused: bool)
    ensures
        crate::draw::written(stepper_ops(s, y, title, value, tw, focused), focused),
        stepper_ops(s, y, title, value, tw, focused)[0] == crate::draw::fill(
            0,
            y,
            s.w as int,
            s.theme.row_h as int,
            if focused { crate::draw::Ink::Black } else { crate::draw::Ink::White },
        ),
{
    broadcast use {
        crate::draw::lemma_shows_in_two,
        crate::draw::lemma_shows_pushed,
        crate::draw::lemma_shows_between_two,
        crate::draw::lemma_shows_between_pushed,
        crate::draw::lemma_written_in_two,
        crate::draw::lemma_written_pushed,
        crate::draw::lemma_draws_in_two,
        crate::draw::lemma_draws_pushed,
    };
}

/// The language with the focus stands out, and no other.
pub proof fn law_language_in_focus_stands_out(focused: bool)
    ensures
        row_state(focused) == RowState::Focused <==> focused,
        !focused ==> row_state(focused) == RowState::Normal,
{
}

} // verus!
