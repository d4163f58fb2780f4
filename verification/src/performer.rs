//! Collects clean text and the current SGR style from the actions of a
//! terminal escape-sequence parser (printed characters, control bytes and
//! CSI sequences).
use vstd::prelude::*;

use crate::text::{chars_of, decimal, push_char, push_decimal, string_of};
use crate::types::{AnsiStyle, AnsiStyleModel};

verus! {

/// The name of standard colour `n` (0 to 7); other values name white.
pub open spec fn color_name(n: int) -> Seq<char> {
    if n == 0 {
        "black"@
    } else if n == 1 {
        "red"@
    } else if n == 2 {
        "green"@
    } else if n == 3 {
        "yellow"@
    } else if n == 4 {
        "blue"@
    } else if n == 5 {
        "magenta"@
    } else if n == 6 {
        "cyan"@
    } else {
        "white"@
    }
}

/// The name of 256-colour palette entry `n`: `ansi` and its number.
pub open spec fn palette_name(n: u16) -> Seq<char> {
    "ansi"@ + decimal(n as nat)
}

/// The style after the SGR parameters from position `i` on.
pub open spec fn sgr_from(style: AnsiStyleModel, nums: Seq<u16>, i: int) -> AnsiStyleModel
    decreases nums.len() - i,
{
    if i < 0 || i >= nums.len() {
        style
    } else {
        let n = nums[i];
        if n == 38 && i + 1 < nums.len() && nums[i + 1] == 5 && i + 2 < nums.len() {
            sgr_from(
                AnsiStyleModel { fg: Some(palette_name(nums[i + 2])), ..style },
                nums,
                i + 3,
            )
        } else if n == 48 && i + 1 < nums.len() && nums[i + 1] == 5 && i + 2 < nums.len() {
            sgr_from(
                AnsiStyleModel { bg: Some(palette_name(nums[i + 2])), ..style },
                nums,
                i + 3,
            )
        } else {
            sgr_from(sgr_code(style, n), nums, i + 1)
        }
    }
}

/// The style after one SGR code other than an extended colour.
pub open spec fn sgr_code(style: AnsiStyleModel, n: u16) -> AnsiStyleModel {
    if n == 0 {
        AnsiStyleModel::plain()
    } else if n == 1 {
        AnsiStyleModel { bold: true, ..style }
    } else if n == 2 {
        AnsiStyleModel { dim: true, ..style }
    } else if n == 3 {
        AnsiStyleModel { italic: true, ..style }
    } else if n == 4 {
        AnsiStyleModel { underline: true, ..style }
    } else if n == 5 {
        AnsiStyleModel { blink: true, ..style }
    } else if n == 22 {
        AnsiStyleModel { bold: false, dim: false, ..style }
    } else if n == 23 {
        AnsiStyleModel { italic: false, ..style }
    } else if n == 24 {
        AnsiStyleModel { underline: false, ..style }
    } else if n == 25 {
        AnsiStyleModel { blink: false, ..style }
    } else if n == 39 {
        AnsiStyleModel { fg: None, ..style }
    } else if n == 49 {
        AnsiStyleModel { bg: None, ..style }
    } else if 30 <= n <= 37 {
        AnsiStyleModel { fg: Some(color_name(n - 30)), ..style }
    } else if 40 <= n <= 47 {
        AnsiStyleModel { bg: Some(color_name(n - 40)), ..style }
    } else {
        style
    }
}

/// The style after a CSI sequence with parameters `nums` and final
/// character `action`: only SGR (`m`) sequences change it; an empty one or
/// a lone `0` resets it.
pub open spec fn csi_style(style: AnsiStyleModel, nums: Seq<u16>, action: char) -> AnsiStyleModel {
    if action != 'm' {
        style
    } else if nums.len() == 0 || (nums.len() == 1 && nums[0] == 0) {
        AnsiStyleModel::plain()
    } else {
        sgr_from(style, nums, 0)
    }
}

pub struct PerformerModel {
    pub clean_buf: Seq<char>,
    pub style: AnsiStyleModel,
    pub lines: Seq<(Seq<char>, AnsiStyleModel)>,
}

pub open spec fn line_model(l: (String, AnsiStyle)) -> (Seq<char>, AnsiStyleModel) {
    (l.0@, l.1@)
}

/// The last line of the input with its style, once the text after the last
/// newline has been taken as a line: empty and plain if there is none.
pub open spec fn last_line(p: PerformerModel) -> (Seq<char>, AnsiStyleModel) {
    let lines = if p.clean_buf.len() != 0 {
        p.lines.push((p.clean_buf, p.style))
    } else {
        p.lines
    };
    if lines.len() > 0 {
        lines.last()
    } else {
        (Seq::empty(), AnsiStyleModel::plain())
    }
}

/// Collects clean text and the current ANSI style.
pub struct BotPerformer {
    pub clean_buf: String,
    pub style: AnsiStyle,
    pub lines: Vec<(String, AnsiStyle)>,
}

impl View for BotPerformer {
    type V = PerformerModel;

    open spec fn view(&self) -> PerformerModel {
        PerformerModel {
            clean_buf: self.clean_buf@,
            style: self.style@,
            lines: self.lines@.map_values(|l: (String, AnsiStyle)| line_model(l)),
        }
    }
}

/// The name of standard colour `n` (0 to 7); other values give `white`.
pub fn ansi_color_name(n: u16) -> (res: String)
    ensures
        res@ == color_name(n as int),
{
    let name = match n {
        0 => "black",
        1 => "red",
        2 => "green",
        3 => "yellow",
        4 => "blue",
        5 => "magenta",
        6 => "cyan",
        7 => "white",
        _ => "white",
    };
    name.to_owned()
}

fn palette_color(n: u16) -> (res: String)
    ensures
        res@ == palette_name(n),
{
    let mut v = chars_of("ansi");
    push_decimal(&mut v, n as u64);
    string_of(&v)
}

impl BotPerformer {
    /// No text, no line, plain style.
    pub fn new() -> (res: BotPerformer)
        ensures
            res@.clean_buf == Seq::<char>::empty(),
            res@.style == AnsiStyleModel::plain(),
            res@.lines == Seq::<(Seq<char>, AnsiStyleModel)>::empty(),
    {
        BotPerformer { clean_buf: String::new(), style: AnsiStyle::default(), lines: Vec::new() }
    }

    /// Ends the current line: its text and the style in force are added to
    /// `lines` and the text buffer is emptied.
    fn flush_line(&mut self)
        ensures
            final(self)@.lines == old(self)@.lines.push((old(self)@.clean_buf, old(self)@.style)),
            final(self)@.clean_buf == Seq::<char>::empty(),
            final(self)@.style == old(self)@.style,
    {
        let mut line = String::new();
        std::mem::swap(&mut line, &mut self.clean_buf);
        let style = self.style.copy();
        self.lines.push((line, style));
        assert(self@.lines =~= old(self)@.lines.push((old(self)@.clean_buf, old(self)@.style)));
    }

    /// A printable character: appended to the current line.
    pub fn print(&mut self, c: char)
        ensures
            final(self)@.clean_buf == old(self)@.clean_buf.push(c),
            final(self)@.style == old(self)@.style,
            final(self)@.lines == old(self)@.lines,
    {
        push_char(&mut self.clean_buf, c);
    }

    /// A control byte: a line feed ends the line; anything else (carriage
    /// return included) is ignored.
    pub fn execute(&mut self, byte: u8)
        ensures
            byte == 10 ==> final(self)@.lines == old(self)@.lines.push(
                (old(self)@.clean_buf, old(self)@.style),
            ) && final(self)@.clean_buf == Seq::<char>::empty() && final(self)@.style == old(
                self,
            )@.style,
            byte != 10 ==> final(self)@ == old(self)@,
    {
        if byte == 10 {
            self.flush_line();
        }
    }

    /// A CSI sequence with flattened parameters `nums` and final character
    /// `action`. Only SGR (`m`) sequences are handled; they change the style.
    pub fn csi_dispatch(&mut self, nums: &Vec<u16>, action: char)
        ensures
            final(self)@.style == csi_style(old(self)@.style, nums@, action),
            final(self)@.clean_buf == old(self)@.clean_buf,
            final(self)@.lines == old(self)@.lines,
    {
        if action != 'm' {
            return;
        }
        if nums.len() == 0 || (nums.len() == 1 && nums[0] == 0) {
            self.style = AnsiStyle::default();
            return;
        }
        let ghost start = self@.style;
        let mut i: usize = 0;
        while i < nums.len()
            invariant
                i <= nums.len(),
                sgr_from(self@.style, nums@, i as int) == sgr_from(start, nums@, 0),
                self@.clean_buf == old(self)@.clean_buf,
                self@.lines == old(self)@.lines,
            decreases nums.len() - i,
        {
            let n = nums[i];
            if n == 38 && i + 1 < nums.len() && nums[i + 1] == 5 && i + 2 < nums.len() {
                self.style.fg = Some(palette_color(nums[i + 2]));
                i = i + 3;
            } else if n == 48 && i + 1 < nums.len() && nums[i + 1] == 5 && i + 2 < nums.len() {
                self.style.bg = Some(palette_color(nums[i + 2]));
                i = i + 3;
            } else {
                self.apply_code(n);
                i = i + 1;
            }
        }
    }

    fn apply_code(&mut self, n: u16)
        ensures
            final(self)@.style == sgr_code(old(self)@.style, n),
            final(self)@.clean_buf == old(self)@.clean_buf,
            final(self)@.lines == old(self)@.lines,
    {
        match n {
            0 => self.style = AnsiStyle::default(),
            1 => self.style.bold = true,
            2 => self.style.dim = true,
            3 => self.style.italic = true,
            4 => self.style.underline = true,
            5 => self.style.blink = true,
            22 => {
                self.style.bold = false;
                self.style.dim = false;
            },
            23 => self.style.italic = false,
            24 => self.style.underline = false,
            25 => self.style.blink = false,
            39 => self.style.fg = None,
            49 => self.style.bg = None,
            30..=37 => self.style.fg = Some(ansi_color_name(n - 30)),
            40..=47 => self.style.bg = Some(ansi_color_name(n - 40)),
            _ => {},
        }
    }

    /// The last line of the input with the style it ends in: the text after
    /// the last line feed counts as a line; empty and plain if there is none.
    pub fn finish(self) -> (res: (String, AnsiStyle))
        ensures
            (res.0@, res.1@) == last_line(self@),
    {
        let mut perf = self;
        if !perf.clean_buf.as_str().is_empty() {
            perf.flush_line();
        }
        let ghost lines = perf@.lines;
        match perf.lines.pop() {
            Some(l) => {
                assert(line_model(l) == lines.last());
                l
            },
            None => (String::new(), AnsiStyle::default()),
        }
    }
}


// ─── Laws of SGR codes ─────────────────────────────────────────────────────

/// The eight standard colours in SGR order.
pub open spec fn standard_colours() -> Seq<Seq<char>> {
    seq!["black"@, "red"@, "green"@, "yellow"@, "blue"@, "magenta"@, "cyan"@, "white"@]
}

/// Whether `n` is none of the SGR codes the monitor follows.
pub open spec fn is_other_code(n: u16) -> bool {
    !(n <= 5 || (22 <= n && n <= 25) || (30 <= n && n <= 37) || n == 39 || (40 <= n && n <= 47)
        || n == 49)
}

/// Each SGR code changes only the attribute it names:
/// - `0` resets every attribute, whatever the style was;
/// - `30`-`37` set the foreground to a standard colour and `39` clears it,
///   leaving everything else; `40`-`47` and `49` do the same for the
///   background;
/// - `1`, `2`, `3`, `4`, `5` set bold, dim, italic, underline and blink,
///   `22` clears bold and dim, `23`, `24`, `25` clear italic, underline and
///   blink, each leaving every other attribute;
/// - any other single code leaves the style as it was.
pub proof fn lemma_sgr_code_changes_only_its_attribute(s: AnsiStyleModel, n: u16)
    ensures
        n == 0 ==> (sgr_code(s, n) == AnsiStyleModel::plain()),
        30 <= n <= 37 ==> (sgr_code(s, n) == (AnsiStyleModel { fg: Some(standard_colours()[n - 30]), ..s })),
        n == 39 ==> (sgr_code(s, n) == (AnsiStyleModel { fg: None, ..s })),
        40 <= n <= 47 ==> (sgr_code(s, n) == (AnsiStyleModel { bg: Some(standard_colours()[n - 40]), ..s })),
        n == 49 ==> (sgr_code(s, n) == (AnsiStyleModel { bg: None, ..s })),
        n == 1 ==> (sgr_code(s, n) == (AnsiStyleModel { bold: true, ..s })),
        n == 2 ==> (sgr_code(s, n) == (AnsiStyleModel { dim: true, ..s })),
        n == 3 ==> (sgr_code(s, n) == (AnsiStyleModel { italic: true, ..s })),
        n == 4 ==> (sgr_code(s, n) == (AnsiStyleModel { underline: true, ..s })),
        n == 5 ==> (sgr_code(s, n) == (AnsiStyleModel { blink: true, ..s })),
        n == 22 ==> (sgr_code(s, n) == (AnsiStyleModel { bold: false, dim: false, ..s })),
        n == 23 ==> (sgr_code(s, n) == (AnsiStyleModel { italic: false, ..s })),
        n == 24 ==> (sgr_code(s, n) == (AnsiStyleModel { underline: false, ..s })),
        n == 25 ==> (sgr_code(s, n) == (AnsiStyleModel { blink: false, ..s })),
        is_other_code(n) ==> (sgr_code(s, n) == s),
{
}

/// A foreground code and the background code ten above it name the same
/// colour, and different codes name different colours.
pub proof fn lemma_sgr_colours_agree(s: AnsiStyleModel, t: AnsiStyleModel, n: u16, k: u16)
    requires
        30 <= n <= 37,
        30 <= k <= 37,
    ensures
        sgr_code(s, n).fg == sgr_code(t, (n + 10) as u16).bg,
        sgr_code(s, n).fg is Some,
        n != k ==> sgr_code(s, n).fg != sgr_code(s, k).fg,
{
    reveal_strlit("black");
    reveal_strlit("red");
    reveal_strlit("green");
    reveal_strlit("yellow");
    reveal_strlit("blue");
    reveal_strlit("magenta");
    reveal_strlit("cyan");
    reveal_strlit("white");
    if n != k {
        let a = color_name(n - 30);
        let b = color_name(k - 30);
        assert(a != b) by {
            if a.len() == b.len() {
                assert(a[0] != b[0] || a[1] != b[1] || a[2] != b[2]);
            }
        }
    }
}

/// A CSI `m` sequence of codes other than the extended-colour ones applies
/// them in order: one code `n` (other than a lone `0`, which resets) gives
/// `sgr_code(style, n)`, and two codes give the second applied to the
/// result of the first.
pub proof fn lemma_sgr_sequence_in_order(s: AnsiStyleModel, a: u16, b: u16)
    requires
        a != 38 && a != 48,
        b != 38 && b != 48,
    ensures
        a != 0 ==> csi_style(s, seq![a], 'm') == sgr_code(s, a),
        csi_style(s, seq![a, b], 'm') == sgr_code(sgr_code(s, a), b),
{
    let one = seq![a];
    let two = seq![a, b];
    assert(sgr_from(sgr_code(s, a), one, 1) == sgr_code(s, a));
    assert(sgr_from(sgr_code(sgr_code(s, a), b), two, 2) == sgr_code(sgr_code(s, a), b));
    assert(sgr_from(sgr_code(s, a), two, 1) == sgr_code(sgr_code(s, a), b));
}

/// The extended colour sequences: `38;5;N` sets only the foreground and
/// `48;5;N` only the background, to palette entry `N`, named `ansi` and the
/// number in decimal.
pub proof fn lemma_sgr_palette(s: AnsiStyleModel, n: u16)
    ensures
        csi_style(s, seq![38u16, 5u16, n], 'm') == (AnsiStyleModel { fg: Some("ansi"@ + decimal(n as nat)), ..s }),
        csi_style(s, seq![48u16, 5u16, n], 'm') == (AnsiStyleModel { bg: Some("ansi"@ + decimal(n as nat)), ..s }),
{
    let f = seq![38u16, 5u16, n];
    let b = seq![48u16, 5u16, n];
    assert(f[0] == 38 && f[1] == 5 && f[2] == n);
    assert(b[0] == 48 && b[1] == 5 && b[2] == n);
    assert(sgr_from(AnsiStyleModel { fg: Some(palette_name(n)), ..s }, f, 3) == (AnsiStyleModel { fg: Some(palette_name(n)), ..s }));
    assert(sgr_from(AnsiStyleModel { bg: Some(palette_name(n)), ..s }, b, 3) == (AnsiStyleModel { bg: Some(palette_name(n)), ..s }));
}

} // verus!
