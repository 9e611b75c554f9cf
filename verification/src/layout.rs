//! The typography profile, and the page geometry that follows from it.
use hypher::Lang as Patterns;
use vstd::prelude::*;

use crate::draw::Rect;
use crate::text;
use crate::text::same;

verus! {

/// A position in a chapter: paragraph byte offset, word index, syllable part. It survives a
/// change of font size: only the page boundaries move, never what was being read.
#[derive(Clone, Copy, Debug, PartialEq, Eq, Structural)]
pub struct Pos {
    /// Byte offset of the paragraph.
    pub para: u32,
    /// Word in the paragraph.
    pub word: u16,
    /// Syllable part of the word.
    pub part: u8,
}

impl Pos {
    /// The start of a chapter.
    pub fn start() -> (r: Pos)
        ensures
            r == (Pos { para: 0, word: 0, part: 0 }),
    {
        Pos { para: 0, word: 0, part: 0 }
    }
}

/// Paragraph separation style.
#[derive(Clone, Copy, Debug, PartialEq, Eq, Structural)]
pub enum ParaStyle {
    /// First-line indent, no gap (book style).
    Indent,
    /// Half a line of space between paragraphs, no indent.
    Space,
}

impl Default for ParaStyle {
    fn default() -> (r: Self)
        ensures
            r == ParaStyle::Indent,
    {
        ParaStyle::Indent
    }
}

/// Text alignment.
#[derive(Clone, Copy, Debug, PartialEq, Eq, Structural)]
pub enum Align {
    /// Justified with hyphenation (book default).
    Justify,
    /// Ragged right.
    Left,
}

impl Default for Align {
    fn default() -> (r: Self)
        ensures
            r == Align::Justify,
    {
        Align::Justify
    }
}

/// A typeface.
#[derive(Clone, Copy, Debug, PartialEq, Eq, Structural)]
pub enum Family {
    /// The book face.
    Literata,
    /// The code face.
    Mono,
    /// Another face of the font set, by its number.
    Other(u8),
}

/// The style of a face.
#[derive(Clone, Copy, Debug, PartialEq, Eq, Structural)]
pub enum Style {
    /// Upright.
    Regular,
    /// Slanted.
    Italic,
    /// Heavy.
    Bold,
    /// Heavy and slanted.
    BoldItalic,
}

impl Style {
    /// The style with the given weight and slant.
    pub open spec fn of(bold: bool, italic: bool) -> Style {
        if bold && italic {
            Style::BoldItalic
        } else if bold {
            Style::Bold
        } else if italic {
            Style::Italic
        } else {
            Style::Regular
        }
    }

    /// The style with the given weight and slant.
    pub fn from_flags(bold: bool, italic: bool) -> (r: Style)
        ensures
            r == Style::of(bold, italic),
    {
        if bold {
            if italic {
                Style::BoldItalic
            } else {
                Style::Bold
            }
        } else if italic {
            Style::Italic
        } else {
            Style::Regular
        }
    }
}

/// The font to look for: the nearest strike of a face is used.
#[derive(Clone, Copy, Debug, PartialEq, Eq, Structural)]
pub struct FontChoice {
    /// Face.
    pub family: Family,
    /// Style.
    pub style: Style,
    /// Size in pixels.
    pub size: u16,
}

/// Which bits of a text run's style flags mean what.
#[derive(Clone, Copy, Debug, PartialEq, Eq, Structural)]
pub struct StyleBits {
    /// Heavy.
    pub bold: u8,
    /// Slanted.
    pub italic: u8,
    /// Code.
    pub mono: u8,
    /// Superscript.
    pub sup: u8,
    /// Subscript.
    pub sub: u8,
}

/// Hyphenation languages compiled in.
#[derive(Clone, Copy, Debug, PartialEq, Eq, Structural)]
pub enum Lang {
    /// English.
    English,
    /// German.
    German,
    /// French.
    French,
    /// Spanish.
    Spanish,
    /// Italian.
    Italian,
    /// Dutch.
    Dutch,
    /// Portuguese.
    Portuguese,
    /// Russian.
    Russian,
    /// No hyphenation patterns.
    NoPatterns,
}

impl Default for Lang {
    fn default() -> (r: Self)
        ensures
            r == Lang::English,
    {
        Lang::English
    }
}

/// `hypher::Lang`: a language hyphenation patterns exist for.
#[verifier::external_type_specification]
#[verifier::external_body]
pub struct ExPatterns(Patterns);

/// The language `hypher::Lang::from_iso` gives for an ISO 639-1 code.
pub uninterp spec fn iso_lang(code: Seq<u8>) -> Option<Patterns>;

/// Whether a code is that of one of the languages whose patterns are compiled in.
pub open spec fn has_patterns(code: Seq<u8>) -> bool {
    code == seq![0x65u8, 0x6e] || code == seq![0x64u8, 0x65] || code == seq![0x66u8, 0x72] || code == seq![0x65u8, 0x73]
        || code == seq![0x69u8, 0x74] || code == seq![0x6eu8, 0x6c] || code == seq![0x70u8, 0x74]
}

/// `hypher::Lang::from_iso`: the language of a two-letter code, named [`iso_lang`]. For the
/// codes `en`, `de`, `fr`, `es`, `it`, `nl` and `pt` there is one.
#[verifier::external_body]
fn lang_from_iso(code: [u8; 2]) -> (r: Option<Patterns>)
    ensures
        r == iso_lang(code@),
        has_patterns(code@) ==> r is Some,
{
    Patterns::from_iso(code)
}

impl Lang {
    /// The two-letter code of a language with patterns.
    ///
    /// No Cyrillic strikes ship, so Russian text falls back to the glyph box and its 200 KB
    /// of patterns are left out of the image; it wraps without hyphens.
    pub open spec fn pattern_code(self) -> Option<Seq<u8>> {
        match self {
            Lang::English => Some(seq![0x65, 0x6e]),
            Lang::German => Some(seq![0x64, 0x65]),
            Lang::French => Some(seq![0x66, 0x72]),
            Lang::Spanish => Some(seq![0x65, 0x73]),
            Lang::Italian => Some(seq![0x69, 0x74]),
            Lang::Dutch => Some(seq![0x6e, 0x6c]),
            Lang::Portuguese => Some(seq![0x70, 0x74]),
            Lang::Russian => None,
            Lang::NoPatterns => None,
        }
    }

    /// The hyphenation patterns of a language, if it has any.
    pub fn hypher(self) -> (r: Option<Patterns>)
        ensures
            r is Some <==> self.pattern_code() is Some,
            self.pattern_code() matches Some(code) ==> r == iso_lang(code),
    {
        let code: [u8; 2] = match self {
            Lang::English => [0x65, 0x6e],
            Lang::German => [0x64, 0x65],
            Lang::French => [0x66, 0x72],
            Lang::Spanish => [0x65, 0x73],
            Lang::Italian => [0x69, 0x74],
            Lang::Dutch => [0x6e, 0x6c],
            Lang::Portuguese => [0x70, 0x74],
            Lang::Russian => return None,
            Lang::NoPatterns => return None,
        };
        assert(code@ =~= self.pattern_code()->0);
        lang_from_iso(code)
    }

    /// The language of a two-letter prefix.
    pub open spec fn of_prefix(c: Seq<char>) -> Lang {
        if c == "en"@ {
            Lang::English
        } else if c == "de"@ {
            Lang::German
        } else if c == "fr"@ {
            Lang::French
        } else if c == "es"@ {
            Lang::Spanish
        } else if c == "it"@ {
            Lang::Italian
        } else if c == "nl"@ {
            Lang::Dutch
        } else if c == "pt"@ {
            Lang::Portuguese
        } else if c == "ru"@ {
            Lang::Russian
        } else {
            Lang::NoPatterns
        }
    }

    /// From a BCP-47 / ISO 639 prefix ("en", "de-DE").
    pub fn from_code(code: &str) -> (r: Lang)
        ensures
            r == lang_of(code@),
            r == if code@.len() >= 2 {
                Lang::of_prefix(code@.take(2))
            } else {
                Lang::NoPatterns
            },
    {
        let v = text::chars_of(code);
        if v.len() < 2 {
            return Lang::NoPatterns;
        }
        let c = text::text_of(&v, 0, 2);
        assert(c@ =~= code@.take(2));
        if same(&c, "en") {
            Lang::English
        } else if same(&c, "de") {
            Lang::German
        } else if same(&c, "fr") {
            Lang::French
        } else if same(&c, "es") {
            Lang::Spanish
        } else if same(&c, "it") {
            Lang::Italian
        } else if same(&c, "nl") {
            Lang::Dutch
        } else if same(&c, "pt") {
            Lang::Portuguese
        } else if same(&c, "ru") {
            Lang::Russian
        } else {
            Lang::NoPatterns
        }
    }
}

/// Everything the text block obeys.
#[derive(Clone, Copy, Debug, PartialEq, Eq, Structural)]
pub struct Profile {
    /// Reading face.
    pub family: Family,
    /// Reading size in pixels (one of the font set's reading sizes).
    pub size: u16,
    /// Line height in percent of the size: 130, 145 or 160.
    pub line_height_pct: u16,
    /// Outer margin in pixels, 16–48 in steps of 8.
    pub margin: u16,
    /// Alignment.
    pub align: Align,
    /// Hyphenate when justifying.
    pub hyphenate: bool,
    /// Hyphenation language.
    pub lang: Lang,
    /// Paragraph style.
    pub para_style: ParaStyle,
    /// Three-line drop cap on the first paragraph of a chapter.
    pub drop_caps: bool,
    /// Dilate glyphs by a pixel.
    pub darker: bool,
    /// Reserve the 12 px Spine strip inside the right margin.
    pub spine: bool,
    /// Reserve 36 px for a running head.
    pub running_head: bool,
}

impl Default for Profile {
    fn default() -> (r: Self)
        ensures
            r == (Profile {
                family: Family::Literata,
                size: 28,
                line_height_pct: 145,
                margin: 32,
                align: Align::Justify,
                hyphenate: true,
                lang: Lang::English,
                para_style: ParaStyle::Indent,
                drop_caps: true,
                darker: true,
                spine: true,
                running_head: true,
            }),
    {
        Profile {
            family: Family::Literata,
            // 26 px reads small on the panel; 28 is the next size with a real baked strike,
            // so it costs nothing to render.
            size: 28,
            line_height_pct: 145,
            margin: 32,
            align: Align::Justify,
            hyphenate: true,
            lang: Lang::English,
            para_style: ParaStyle::Indent,
            drop_caps: true,
            // E-ink gives up contrast to the paper: a one-pixel dilation is the difference
            // between grey text and black text on this panel.
            darker: true,
            spine: true,
            running_head: true,
        }
    }
}

/// Width of the Spine strip itself.
pub const SPINE_W: u32 = 12;

/// Clear space between the text block and the Spine, so a justified line never touches it.
pub const SPINE_GUTTER: u32 = 10;

/// Height reserved for the running head.
pub const RUNNING_HEAD_H: u32 = 36;

/// The smallest side of a text block.
pub const MIN_BLOCK: u32 = 64;

/// The page geometry derived from a profile and a frame size.
#[derive(Clone, Copy, Debug, PartialEq, Eq, Structural)]
pub struct Geometry {
    /// Frame width.
    pub w: u32,
    /// Frame height.
    pub h: u32,
    /// The text block.
    pub text: Rect,
    /// Line height in pixels.
    pub line_h: i32,
}

/// The first size in the list that is at least `size`; the last one if there is none.
pub open spec fn size_at(sizes: Seq<u16>, size: u16) -> int
    decreases sizes.len(),
{
    if sizes.len() <= 1 || sizes[0] >= size {
        0
    } else {
        1 + size_at(sizes.skip(1), size)
    }
}

/// One reading size down.
pub open spec fn below(sizes: Seq<u16>, size: u16) -> u16 {
    let i = size_at(sizes, size);
    sizes[if i > 0 { i - 1 } else { 0 }]
}

/// One reading size up.
pub open spec fn above(sizes: Seq<u16>, size: u16) -> u16 {
    let i = size_at(sizes, size);
    sizes[if i + 1 < sizes.len() { i + 1 } else { i }]
}

fn find_size(sizes: &[u16], size: u16) -> (r: usize)
    requires
        sizes@.len() > 0,
    ensures
        r == size_at(sizes@, size),
        r < sizes@.len(),
{
    let mut i: usize = 0;
    assert(sizes@.skip(0) =~= sizes@);
    while i < sizes.len() - 1 && sizes[i] < size
        invariant
            i < sizes@.len(),
            size_at(sizes@, size) == i + size_at(sizes@.skip(i as int), size),
        decreases sizes@.len() - i,
    {
        assert(sizes@.skip(i as int).skip(1) =~= sizes@.skip(i + 1));
        i += 1;
    }
    i
}

fn step_below(sizes: &[u16], size: u16) -> (r: u16)
    requires
        sizes@.len() > 0,
    ensures
        r == below(sizes@, size),
{
    let i = find_size(sizes, size);
    sizes[if i > 0 { i - 1 } else { 0 }]
}

fn step_above(sizes: &[u16], size: u16) -> (r: u16)
    requires
        sizes@.len() > 0,
    ensures
        r == above(sizes@, size),
{
    let i = find_size(sizes, size);
    sizes[if i < sizes.len() - 1 { i + 1 } else { i }]
}

/// A frame side as the signed number it is reckoned with.
pub open spec fn signed(n: u32) -> int {
    if n < 0x8000_0000 {
        n as int
    } else {
        n - 0x1_0000_0000
    }
}

/// What a side of the frame leaves for text, never less than [`MIN_BLOCK`].
pub open spec fn block(side: u32, taken: int) -> int {
    if signed(side) - taken > MIN_BLOCK {
        signed(side) - taken
    } else {
        MIN_BLOCK as int
    }
}

fn block_of(side: u32, taken: i32) -> (r: u32)
    requires
        0 <= taken,
        signed(side) - taken >= i32::MIN,
    ensures
        r == block(side, taken as int),
{
    let n: i64 = if side < 0x8000_0000 {
        side as i64
    } else {
        side as i64 - 0x1_0000_0000
    };
    let left: i64 = n - taken as i64;
    if left > MIN_BLOCK as i64 {
        left as u32
    } else {
        MIN_BLOCK
    }
}

impl Profile {
    /// The distance of two lines: the share of the size that is set, rounded to the nearest pixel.
    pub open spec fn line_height(self) -> int {
        (self.line_px() + 50) / 100
    }

    /// Whether this is how a frame is laid out: the block of text inside the margins, below the head.
    pub open spec fn lays_out(self, w: u32, h: u32, g: Geometry) -> bool {
        &&& g.w == w && g.h == h
        &&& g.text.x == self.margin && g.text.y == self.margin + self.head()
        &&& g.text.w == block(w, self.taken_w()) && g.text.h == block(h, self.taken_h())
        &&& g.line_h == self.line_height()
    }

    /// The font of a run of text.
    pub open spec fn font_for(self, flags: u8, bits: StyleBits, sizes: Seq<u16>) -> FontChoice {
        if flags & bits.mono != 0 {
            FontChoice {
                family: Family::Mono,
                style: Style::of(flags & bits.bold != 0, false),
                size: below(sizes, self.size),
            }
        } else {
            FontChoice {
                family: self.family,
                style: Style::of(flags & bits.bold != 0, flags & bits.italic != 0),
                size: if flags & (bits.sup | bits.sub) != 0 {
                    below(sizes, below(sizes, self.size))
                } else {
                    self.size
                },
            }
        }
    }

    /// The font of a heading.
    pub open spec fn heading_for(self, level: u8, sizes: Seq<u16>) -> FontChoice {
        FontChoice {
            family: self.family,
            style: Style::Bold,
            size: if level <= 1 { above(sizes, above(sizes, self.size)) } else { above(sizes, self.size) },
        }
    }

    /// What the margins and the Spine take of the width.
    pub open spec fn taken_w(self) -> int {
        2 * self.margin + (if self.spine { SPINE_W + SPINE_GUTTER } else { 0 })
    }

    /// What the margins and the running head take of the height.
    pub open spec fn taken_h(self) -> int {
        2 * self.margin + self.head()
    }

    /// What the running head takes.
    pub open spec fn head(self) -> int {
        if self.running_head {
            RUNNING_HEAD_H as int
        } else {
            0
        }
    }

    /// Geometry for a frame of `w × h`.
    pub fn geometry(&self, w: u32, h: u32) -> (g: Geometry)
        requires
            signed(w) - self.taken_w() >= i32::MIN,
            signed(h) - self.taken_h() >= i32::MIN,
        ensures
            self.lays_out(w, h, g),
            g.w == w,
            g.h == h,
            g.text.x == self.margin,
            g.text.y == self.margin + self.head(),
            g.text.w == block(w, self.taken_w()),
            g.text.h == block(h, self.taken_h()),
            g.line_h == (self.line_px() + 50) / 100,
    {
        let m: i32 = self.margin as i32;
        let right_extra: i32 = if self.spine { (SPINE_W + SPINE_GUTTER) as i32 } else { 0 };
        let top_extra: i32 = if self.running_head { RUNNING_HEAD_H as i32 } else { 0 };
        let text = Rect::new(m, m + top_extra, block_of(w, 2 * m + right_extra), block_of(h, 2 * m + top_extra));
        Geometry { w, h, text, line_h: self.line_h() }
    }

    /// A hundred times the exact line height.
    pub open spec fn line_px(self) -> int {
        self.size * self.line_height_pct
    }

    /// Line height in pixels.
    pub fn line_h(&self) -> (r: i32)
        ensures
            r == self.line_height(),
            r == (self.line_px() + 50) / 100,
    {
        assert(self.size * self.line_height_pct <= 0xffff * 0xffff) by (nonlinear_arith)
            requires
                self.size <= 0xffff,
                self.line_height_pct <= 0xffff,
        ;
        ((self.size as u32 * self.line_height_pct as u32 + 50) / 100) as i32
    }

    /// The reading font for a style flag set.
    pub fn font(&self, flags: u8, bits: StyleBits, sizes: &[u16]) -> (r: FontChoice)
        requires
            sizes@.len() > 0,
        ensures
            r == self.font_for(flags, bits, sizes@),
            r == if flags & bits.mono != 0 {
                FontChoice {
                    family: Family::Mono,
                    style: Style::of(flags & bits.bold != 0, false),
                    size: below(sizes@, self.size),
                }
            } else {
                FontChoice {
                    family: self.family,
                    style: Style::of(flags & bits.bold != 0, flags & bits.italic != 0),
                    size: if flags & (bits.sup | bits.sub) != 0 {
                        below(sizes@, below(sizes@, self.size))
                    } else {
                        self.size
                    },
                }
            },
    {
        let bold = flags & bits.bold != 0;
        let italic = flags & bits.italic != 0;
        if flags & bits.mono != 0 {
            return FontChoice {
                family: Family::Mono,
                style: Style::from_flags(bold, false),
                size: self.code_size(sizes),
            };
        }
        let style = Style::from_flags(bold, italic);
        if flags & (bits.sup | bits.sub) != 0 {
            return FontChoice { family: self.family, style, size: self.small_size(sizes) };
        }
        FontChoice { family: self.family, style, size: self.size }
    }

    /// Monospace size: one reading step below the body size.
    pub fn code_size(&self, sizes: &[u16]) -> (r: u16)
        requires
            sizes@.len() > 0,
        ensures
            r == below(sizes@, self.size),
    {
        step_below(sizes, self.size)
    }

    /// Size for captions, superscripts: two steps below.
    pub fn small_size(&self, sizes: &[u16]) -> (r: u16)
        requires
            sizes@.len() > 0,
        ensures
            r == below(sizes@, below(sizes@, self.size)),
    {
        step_below(sizes, step_below(sizes, self.size))
    }

    /// Heading font: bold, one step above (level 1 two steps above).
    pub fn heading_font(&self, level: u8, sizes: &[u16]) -> (r: FontChoice)
        requires
            sizes@.len() > 0,
        ensures
            r == self.heading_for(level, sizes@),
            r == (FontChoice {
                family: self.family,
                style: Style::Bold,
                size: if level <= 1 {
                    above(sizes@, above(sizes@, self.size))
                } else {
                    above(sizes@, self.size)
                },
            }),
    {
        let size: u16 = if level <= 1 {
            step_above(sizes, step_above(sizes, self.size))
        } else {
            step_above(sizes, self.size)
        };
        FontChoice { family: self.family, style: Style::Bold, size }
    }
}

/// The text block, the gutter and the Spine stand side by side inside the margins: whatever
/// the profile, nothing of the block reaches the gutter, on a frame wide enough for both.
pub proof fn law_block_clears_the_spine(p: Profile, w: u32)
    requires
        w < 0x8000_0000,
        p.spine,
        w - p.taken_w() >= MIN_BLOCK,
    ensures
        p.margin + block(w, p.taken_w()) + SPINE_GUTTER == w - p.margin - SPINE_W,
{
}

/// On a frame tall enough the block ends a margin above the lower edge, and starts below the
/// running head.
pub proof fn law_block_clears_the_running_head(p: Profile, h: u32)
    requires
        h < 0x8000_0000,
        h - p.taken_h() >= MIN_BLOCK,
    ensures
        p.margin + p.head() + block(h, p.taken_h()) == h - p.margin,
{
}

proof fn lemma_size_at_itself(sizes: Seq<u16>, i: int)
    requires
        0 <= i < sizes.len(),
        forall|a: int, b: int| 0 <= a < b < sizes.len() ==> sizes[a] < sizes[b],
    ensures
        size_at(sizes, sizes[i]) == i,
    decreases i,
{
    if i > 0 {
        let rest = sizes.skip(1);
        assert forall|a: int, b: int| 0 <= a < b < rest.len() implies rest[a] < rest[b] by {
            assert(rest[a] == sizes[a + 1] && rest[b] == sizes[b + 1]);
        }
        lemma_size_at_itself(rest, i - 1);
        assert(rest[i - 1] == sizes[i]);
    }
}

/// A step up undoes a step down, and the other way round, wherever there is room for both.
pub proof fn law_steps_undo_each_other(sizes: Seq<u16>, i: int)
    requires
        0 < i < sizes.len() - 1,
        forall|a: int, b: int| 0 <= a < b < sizes.len() ==> sizes[a] < sizes[b],
    ensures
        above(sizes, below(sizes, sizes[i])) == sizes[i],
        below(sizes, above(sizes, sizes[i])) == sizes[i],
{
    lemma_size_at_itself(sizes, i);
    lemma_size_at_itself(sizes, i - 1);
    lemma_size_at_itself(sizes, i + 1);
}

/// Text in the mono face keeps its weight but is never slanted, and is a size smaller; other text is in the profile's
/// face, with its weight and slant, and small only where it is raised or lowered.
pub proof fn law_fonts_follow_the_style(p: Profile, flags: u8, bits: StyleBits, sizes: Seq<u16>)
    ensures
        ({
            let f = p.font_for(flags, bits, sizes);
            let bold = flags & bits.bold != 0;
            let italic = flags & bits.italic != 0;
            let mono = flags & bits.mono != 0;
            let small = flags & (bits.sup | bits.sub) != 0;
            &&& mono ==> f.family == Family::Mono && f.size == below(sizes, p.size)
            &&& !mono ==> f.family == p.family && (!small ==> f.size == p.size)
            &&& !mono && small ==> f.size == below(sizes, below(sizes, p.size))
            &&& (f.style is Bold || f.style is BoldItalic) == bold
            &&& (f.style is Italic || f.style is BoldItalic) == (italic && !mono)
        }),
{
}

/// A heading is bold in the profile's face and larger than the text, the first level the largest.
pub proof fn law_headings_are_larger(p: Profile, level: u8, sizes: Seq<u16>, i: int)
    requires
        0 <= i < sizes.len(),
        forall|a: int, b: int| 0 <= a < b < sizes.len() ==> sizes[a] < sizes[b],
        p.size == sizes[i],
    ensures
        p.heading_for(level, sizes).style == Style::Bold,
        p.heading_for(level, sizes).family == p.family,
        level > 1 && i + 1 < sizes.len() ==> p.heading_for(level, sizes).size == sizes[i + 1],
        level <= 1 && i + 2 < sizes.len() ==> p.heading_for(level, sizes).size == sizes[i + 2],
        i + 1 == sizes.len() ==> p.heading_for(level, sizes).size == p.size,
        i > 0 ==> below(sizes, p.size) == sizes[i - 1],
        i == 0 ==> below(sizes, p.size) == p.size,
{
    lemma_size_at_itself(sizes, i);
    if i + 1 < sizes.len() {
        lemma_size_at_itself(sizes, i + 1);
    }
}

/// The block of text stands a margin from the left edge; a running head moves it down by its height and takes as much
/// from its height, and the spine takes its width and gutter from the width. Where the frame is too small, the block
/// is still large enough to hold something.
pub proof fn law_frame_is_laid_out(p: Profile, w: u32, h: u32, g: Geometry, q: Geometry)
    requires
        w < 0x8000_0000,
        h < 0x8000_0000,
        p.lays_out(w, h, g),
        (Profile { spine: false, running_head: false, ..p }).lays_out(w, h, q),
    ensures
        g.text.x == p.margin && q.text.x == p.margin && q.text.y == p.margin,
        g.text.w >= 64 && g.text.h >= 64,
        p.running_head ==> g.text.y == q.text.y + 36,
        !p.running_head ==> g.text.y == q.text.y && g.text.h == q.text.h,
        p.running_head && g.text.h > 64 ==> g.text.h == q.text.h - 36,
        p.spine && g.text.w > 64 ==> g.text.w == q.text.w - 22,
        !p.spine ==> g.text.w == q.text.w,
        q.text.w > 64 ==> q.text.x + q.text.w == w - p.margin,
        q.text.h > 64 ==> q.text.y + q.text.h == h - p.margin,
        100 * g.line_h - 50 <= p.size * p.line_height_pct < 100 * g.line_h + 50 || 100 * g.line_h - 50 == p.size
            * p.line_height_pct,
{
}

/// A language is known by the two letters under which its patterns are found.
pub proof fn law_languages_by_their_letters(code: Seq<char>)
    ensures
        code == "en"@ || code == "de"@ || code == "fr"@ || code == "es"@ || code == "it"@ || code == "nl"@ || code == "pt"@
            ==> (Lang::of_prefix(code).pattern_code() matches Some(c) && c.len() == 2 && c[0] as int == code[0] as int && c[1] as int == code[1] as int),
        Lang::of_prefix("ru"@) == Lang::Russian,
        Lang::of_prefix("ru"@).pattern_code() is None,
        Lang::of_prefix(code).pattern_code() is Some ==> code == "en"@ || code == "de"@ || code == "fr"@ || code == "es"@ || code
            == "it"@ || code == "nl"@ || code == "pt"@,
{
    reveal_strlit("en");
    reveal_strlit("de");
    reveal_strlit("fr");
    reveal_strlit("es");
    reveal_strlit("it");
    reveal_strlit("nl");
    reveal_strlit("pt");
    reveal_strlit("ru");
    assert("en"@[0] == 'e' && "en"@[1] == 'n' && "de"@[0] == 'd' && "fr"@[0] == 'f' && "es"@[0] == 'e' && "es"@[1] == 's');
    assert("it"@[0] == 'i' && "nl"@[0] == 'n' && "pt"@[0] == 'p' && "ru"@[0] == 'r');
}

/// A language by its code: the first two letters of it count, whatever comes behind them.
pub open spec fn lang_of(code: Seq<char>) -> Lang {
    if code.len() >= 2 {
        Lang::of_prefix(code.take(2))
    } else {
        Lang::NoPatterns
    }
}

/// What stands behind the two letters of a language, a country or a script, does not change it.
pub proof fn law_countries_do_not_matter(code: Seq<char>, behind: Seq<char>)
    requires
        code.len() == 2,
    ensures
        lang_of(code + behind) == lang_of(code),
        lang_of(code) == Lang::of_prefix(code),
        lang_of(code.take(1)) == Lang::NoPatterns,
        Lang::of_prefix("en"@) == Lang::English && Lang::of_prefix("de"@) == Lang::German,
{
    assert((code + behind).take(2) =~= code);
    assert(code.take(2) =~= code);
    reveal_strlit("en");
    reveal_strlit("de");
    assert("en"@[0] == 'e' && "de"@[0] == 'd');
}

} // verus!
