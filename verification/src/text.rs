//! Validation and framing of the text that crosses the boundary.
//!
//! A plug-in name or a log message arrives as raw bytes and must be valid
//! UTF-8; anything else is fatal guest misbehavior. A validated message is
//! framed as `"{plugin}\tLEVEL\t{message}\n"` for the byte-stream sink.

use vstd::prelude::*;

verus! {

/// Whether `b` is a UTF-8 continuation byte.
pub open spec fn utf8_cont(b: u8) -> bool {
    0x80 <= b < 0xC0
}

/// The byte length of the UTF-8 scalar starting at `i`, or 0 when no valid
/// scalar starts there. Overlong forms, surrogates and values past
/// `0x10FFFF` are excluded by the second-byte ranges.
pub open spec fn utf8_len_at(s: Seq<u8>, i: int) -> int {
    if i < 0 || i >= s.len() {
        0
    } else {
        let b0 = s[i];
        if b0 < 0x80 {
            1
        } else if 0xC2 <= b0 && b0 <= 0xDF {
            if i + 2 <= s.len() && utf8_cont(s[i + 1]) {
                2
            } else {
                0
            }
        } else if b0 == 0xE0 {
            if i + 3 <= s.len() && 0xA0 <= s[i + 1] && s[i + 1] <= 0xBF && utf8_cont(s[i + 2]) {
                3
            } else {
                0
            }
        } else if 0xE1 <= b0 && b0 <= 0xEC || b0 == 0xEE || b0 == 0xEF {
            if i + 3 <= s.len() && utf8_cont(s[i + 1]) && utf8_cont(s[i + 2]) {
                3
            } else {
                0
            }
        } else if b0 == 0xED {
            if i + 3 <= s.len() && 0x80 <= s[i + 1] && s[i + 1] <= 0x9F && utf8_cont(s[i + 2]) {
                3
            } else {
                0
            }
        } else if b0 == 0xF0 {
            if i + 4 <= s.len() && 0x90 <= s[i + 1] && s[i + 1] <= 0xBF && utf8_cont(s[i + 2])
                && utf8_cont(s[i + 3]) {
                4
            } else {
                0
            }
        } else if 0xF1 <= b0 && b0 <= 0xF3 {
            if i + 4 <= s.len() && utf8_cont(s[i + 1]) && utf8_cont(s[i + 2]) && utf8_cont(
                s[i + 3],
            ) {
                4
            } else {
                0
            }
        } else if b0 == 0xF4 {
            if i + 4 <= s.len() && 0x80 <= s[i + 1] && s[i + 1] <= 0x8F && utf8_cont(s[i + 2])
                && utf8_cont(s[i + 3]) {
                4
            } else {
                0
            }
        } else {
            0
        }
    }
}

/// Whether the bytes from `i` to the end decompose into UTF-8 scalars.
pub open spec fn is_utf8_from(s: Seq<u8>, i: int) -> bool
    decreases s.len() - i,
{
    if i >= s.len() {
        true
    } else {
        let l = utf8_len_at(s, i);
        if l <= 0 {
            false
        } else {
            is_utf8_from(s, i + l)
        }
    }
}

/// Whether the whole byte sequence is valid UTF-8.
pub open spec fn is_utf8(s: Seq<u8>) -> bool {
    is_utf8_from(s, 0)
}

/// Decides UTF-8 validity of a byte vector.
pub fn check_utf8(bytes: &Vec<u8>) -> (r: bool)
    ensures
        r == is_utf8(bytes@),
{
    let n = bytes.len();
    let mut i: usize = 0;
    while i < n
        invariant
            i <= n,
            n == bytes@.len(),
            is_utf8(bytes@) == is_utf8_from(bytes@, i as int),
        decreases n - i,
    {
        let b0 = bytes[i];
        let rest = n - i;
        let step: usize = if b0 < 0x80 {
            1
        } else if 0xC2 <= b0 && b0 <= 0xDF {
            if rest >= 2 && 0x80 <= bytes[i + 1] && bytes[i + 1] < 0xC0 {
                2
            } else {
                0
            }
        } else if b0 == 0xE0 {
            if rest >= 3 && 0xA0 <= bytes[i + 1] && bytes[i + 1] <= 0xBF && 0x80 <= bytes[i + 2]
                && bytes[i + 2] < 0xC0 {
                3
            } else {
                0
            }
        } else if 0xE1 <= b0 && b0 <= 0xEC || b0 == 0xEE || b0 == 0xEF {
            if rest >= 3 && 0x80 <= bytes[i + 1] && bytes[i + 1] < 0xC0 && 0x80 <= bytes[i + 2]
                && bytes[i + 2] < 0xC0 {
                3
            } else {
                0
            }
        } else if b0 == 0xED {
            if rest >= 3 && 0x80 <= bytes[i + 1] && bytes[i + 1] <= 0x9F && 0x80 <= bytes[i + 2]
                && bytes[i + 2] < 0xC0 {
                3
            } else {
                0
            }
        } else if b0 == 0xF0 {
            if rest >= 4 && 0x90 <= bytes[i + 1] && bytes[i + 1] <= 0xBF && 0x80 <= bytes[i + 2]
                && bytes[i + 2] < 0xC0 && 0x80 <= bytes[i + 3] && bytes[i + 3] < 0xC0 {
                4
            } else {
                0
            }
        } else if 0xF1 <= b0 && b0 <= 0xF3 {
            if rest >= 4 && 0x80 <= bytes[i + 1] && bytes[i + 1] < 0xC0 && 0x80 <= bytes[i + 2]
                && bytes[i + 2] < 0xC0 && 0x80 <= bytes[i + 3] && bytes[i + 3] < 0xC0 {
                4
            } else {
                0
            }
        } else if b0 == 0xF4 {
            if rest >= 4 && 0x80 <= bytes[i + 1] && bytes[i + 1] <= 0x8F && 0x80 <= bytes[i + 2]
                && bytes[i + 2] < 0xC0 && 0x80 <= bytes[i + 3] && bytes[i + 3] < 0xC0 {
                4
            } else {
                0
            }
        } else {
            0
        };
        proof {
            assert(step as int == utf8_len_at(bytes@, i as int));
        }
        if step == 0 {
            return false;
        }
        i = i + step;
    }
    true
}

/// A log sink level.
#[derive(Clone, Copy, PartialEq, Eq, Structural, Debug)]
pub enum LogLevel {
    Info,
    Error,
}

/// The level's tag as sink bytes: `INFO` or `ERROR`.
pub open spec fn level_tag(level: LogLevel) -> Seq<u8> {
    match level {
        LogLevel::Info => seq![73u8, 78u8, 70u8, 79u8],
        LogLevel::Error => seq![69u8, 82u8, 82u8, 79u8, 82u8],
    }
}

/// The framed sink line: `"{plugin}\tLEVEL\t{message}\n"`.
pub open spec fn log_line(plugin: Seq<u8>, level: LogLevel, mesg: Seq<u8>) -> Seq<u8> {
    plugin + seq![9u8] + level_tag(level) + seq![9u8] + mesg + seq![10u8]
}

/// Appends `src` to `out`.
pub fn append_bytes(out: &mut Vec<u8>, src: &Vec<u8>)
    ensures
        final(out)@ == old(out)@ + src@,
{
    let mut i: usize = 0;
    while i < src.len()
        invariant
            i <= src@.len(),
            out@ == old(out)@ + src@.take(i as int),
        decreases src@.len() - i,
    {
        out.push(src[i]);
        i = i + 1;
        proof {
            assert(out@ =~= old(out)@ + src@.take(i as int));
        }
    }
    proof {
        assert(old(out)@ + src@.take(src@.len() as int) =~= old(out)@ + src@);
    }
}

/// Frames a validated message for the sink.
pub fn format_log_line(plugin: &Vec<u8>, level: LogLevel, mesg: &Vec<u8>) -> (r: Vec<u8>)
    ensures
        r@ == log_line(plugin@, level, mesg@),
{
    let mut out: Vec<u8> = Vec::new();
    append_bytes(&mut out, plugin);
    out.push(9);
    match level {
        LogLevel::Info => {
            out.push(73);
            out.push(78);
            out.push(70);
            out.push(79);
        },
        LogLevel::Error => {
            out.push(69);
            out.push(82);
            out.push(82);
            out.push(79);
            out.push(82);
        },
    }
    out.push(9);
    append_bytes(&mut out, mesg);
    out.push(10);
    proof {
        assert(out@ =~= log_line(plugin@, level, mesg@));
    }
    out
}

} // verus!
