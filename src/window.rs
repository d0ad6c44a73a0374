use vstd::prelude::*;

use vstd::string::StringExecFns;

verus! {

#[verifier::external_type_specification]
#[verifier::external_body]
pub struct ExFmtError(strfmt::FmtError);

/// How many columns of blank surround a window's message.
pub const PADDING: usize = 2;

/// The number of bytes that `s` takes in UTF-8.
pub open spec fn byte_len(s: Seq<char>) -> int {
    vstd::utf8::encode_utf8(s).len() as int
}

/// `n` spaces.
pub open spec fn spaces(n: int) -> Seq<char> {
    Seq::new(n as nat, |_i: int| ' ')
}

/// `m` followed by spaces up to `width` bytes; `m` alone where it is that
/// long already.
pub open spec fn padded(m: Seq<char>, width: int) -> Seq<char> {
    if byte_len(m) < width {
        m + spaces(width - byte_len(m))
    } else {
        m
    }
}

/// Relies on strfmt::strfmt: the format `{message:<width}` gives the value of
/// `message` followed by spaces up to `width` bytes, or the value alone where
/// it is that long already.
#[verifier::external_body]
fn pad_message(message: &String, width: usize) -> (r: Result<String, strfmt::FmtError>)
    ensures
        r matches Ok(s) ==> s@ == padded(message@, width as int),
{
    let mut vars = std::collections::HashMap::new();
    vars.insert("message".to_string(), message);
    strfmt::strfmt(&format!("{{message:<{}}}", width), &vars)
}

/// A string of `n` spaces.
fn spaces_string(n: usize) -> (r: String)
    ensures
        r@ == spaces(n as int),
{
    let mut s = String::new();
    let mut k: usize = 0;
    proof {
        reveal_strlit(" ");
    }
    while k < n
        invariant
            k <= n,
            s@ == spaces(k as int),
            " "@ == seq![' '],
        decreases n - k,
    {
        s.append(" ");
        k = k + 1;
        proof {
            assert(s@ =~= spaces(k as int));
        }
    }
    s
}

/// The widest of the lines, in bytes.
pub open spec fn max_byte_len(lines: Seq<Seq<char>>) -> int
    decreases lines.len(),
{
    if lines.len() == 0 {
        0
    } else {
        vstd::math::max(max_byte_len(lines.drop_last()), byte_len(lines.last()))
    }
}

/// The texts of a sequence of strings.
pub open spec fn texts(lines: Seq<String>) -> Seq<Seq<char>> {
    lines.map_values(|s: String| s@)
}

/// Where a window over `lines` stands on a terminal of `width` by `height`:
/// centred, with room for its padding, or nowhere.
pub open spec fn placement(lines: Seq<Seq<char>>, width: int, height: int) -> Option<(int, int)> {
    let w = max_byte_len(lines);
    let h = lines.len() as int;
    if h == 0 || width < w || height < h {
        None
    } else {
        let x = width / 2 - w / 2;
        let y = height / 2 - h / 2;
        if x < PADDING || y < PADDING {
            None
        } else {
            Some((x - PADDING, y - PADDING))
        }
    }
}

/// Line `k` of the frame of a window over `lines`: its message lines padded
/// to the widest, between blank lines and blank columns.
pub open spec fn frame_line(lines: Seq<Seq<char>>, k: int) -> Seq<char> {
    let w = max_byte_len(lines);
    if PADDING <= k < lines.len() + PADDING {
        spaces(PADDING as int) + padded(lines[k - PADDING], w) + spaces(PADDING as int)
    } else {
        spaces(w + 2 * PADDING)
    }
}

/// `r` is how a window over `lines` lays out on a terminal of `width` by
/// `height`: nothing where it does not fit, else its frame at its place; an
/// error only where it fits and a line could not be padded.
pub open spec fn laid_out(
    lines: Seq<Seq<char>>,
    width: int,
    height: int,
    r: Result<Option<Frame>, WindowError>,
) -> bool {
    match r {
        Ok(None) => placement(lines, width, height) is None,
        Ok(Some(frame)) => placement(lines, width, height) == Some(
            (frame.column as int, frame.row as int),
        ) && frame.lines@.len() == lines.len() + 2 * PADDING && forall|k: int|
            0 <= k < frame.lines@.len() ==> (#[trigger] frame.lines@[k])@ == frame_line(lines, k),
        Err(_) => placement(lines, width, height) is Some,
    }
}

/// What a window puts on the terminal: `lines`, one under the other, from
/// `column` and `row` on.
pub struct Frame {
    pub column: usize,
    pub row: usize,
    pub lines: Vec<String>,
}

/// Why a window could not be laid out.
#[derive(Debug)]
pub enum WindowError {
    /// A message line could not be padded.
    Format(strfmt::FmtError),
}

/// A message shown in a box over the middle of the terminal.
pub struct Window {
    pub message: Vec<String>,
}

impl Window {
    /// Lays the window out on a terminal of `terminal_width` by
    /// `terminal_height`; nothing where it does not fit with its padding.
    pub fn draw(&self, terminal_width: usize, terminal_height: usize) -> (r: Result<
        Option<Frame>,
        WindowError,
    >)
        ensures
            laid_out(texts(self.message@), terminal_width as int, terminal_height as int, r),
    {
        let ghost lines = texts(self.message@);
        let n = self.message.len();
        if n == 0 {
            return Ok(None);
        }
        let mut width: usize = 0;
        let mut k: usize = 0;
        while k < n
            invariant
                n == self.message@.len(),
                lines == texts(self.message@),
                k <= n,
                width == max_byte_len(lines.subrange(0, k as int)),
            decreases n - k,
        {
            let len = self.message[k].as_str().as_bytes().len();
            proof {
                assert(lines.subrange(0, k + 1).drop_last() =~= lines.subrange(0, k as int));
                assert(lines[k as int] == self.message@[k as int]@);
                assert(len == byte_len(lines[k as int]));
                assert(lines.subrange(0, k + 1).last() == lines[k as int]);
            }
            if len > width {
                width = len;
            }
            k = k + 1;
        }
        proof {
            assert(lines.subrange(0, k as int) =~= lines);
        }
        if terminal_width < width || terminal_height < n {
            return Ok(None);
        }
        let x = terminal_width / 2 - width / 2;
        let y = terminal_height / 2 - n / 2;
        if x < PADDING || y < PADDING {
            return Ok(None);
        }
        assert(width + 4 <= usize::MAX && n + 4 <= usize::MAX) by (nonlinear_arith)
            requires
                x as int == terminal_width as int / 2 - width as int / 2,
                y as int == terminal_height as int / 2 - n as int / 2,
                x >= 2,
                y >= 2,
                width <= terminal_width <= usize::MAX,
                n <= terminal_height <= usize::MAX,
                usize::MAX % 2 == 1,
        ;
        assert(placement(lines, terminal_width as int, terminal_height as int) == Some(
            ((x - PADDING) as int, (y - PADDING) as int),
        ));
        let blank_width = width + 2 * PADDING;
        let mut frame: Vec<String> = Vec::new();
        let mut row: usize = 0;
        while row < n + 2 * PADDING
            invariant
                n == self.message@.len(),
                lines == texts(self.message@),
                width == max_byte_len(lines),
                blank_width == width + 2 * PADDING,
                row <= n + 2 * PADDING,
                frame@.len() == row,
                forall|j: int| 0 <= j < row ==> (#[trigger] frame@[j])@ == frame_line(lines, j),
                placement(lines, terminal_width as int, terminal_height as int) is Some,
            decreases n + 2 * PADDING - row,
        {
            if PADDING <= row && row < n + PADDING {
                let text = match pad_message(&self.message[row - PADDING], width) {
                    Ok(text) => text,
                    Err(e) => {
                        return Err(WindowError::Format(e));
                    },
                };
                let mut line = spaces_string(PADDING);
                line.append(text.as_str());
                let tail = spaces_string(PADDING);
                line.append(tail.as_str());
                proof {
                    assert(lines[row - PADDING] == self.message@[row - PADDING]@);
                }
                frame.push(line);
            } else {
                frame.push(spaces_string(blank_width));
            }
            row = row + 1;
        }
        Ok(Some(Frame { column: x - PADDING, row: y - PADDING, lines: frame }))
    }
}

} // verus!
