//! The drawing routines: each appends to the output exactly the sequence
//! that the state machine names.
use vstd::prelude::*;
use crate::catalog::{entries, Entry};
use crate::screen::{
    clamp16, clear_current_line, clear_line_sequence, goto_sequence, line_break,
    put_description_colors, put_goto, put_reset_colors, put_trigger_colors, saturating_sum, Screen,
};
use crate::terminal::state::{
    anchor_row, blank_rows, clear_below, full_line, line_breaks, overlay_row, overlay_rows,
    prompt_line,
};
use crate::text::{lemma_append_twice, pad_right, push_padded};

verus! {

/// Appends the characters `v[from..]`.
pub fn put_chars(out: &mut String, v: &Vec<char>, from: usize)
    requires
        from <= v.len(),
    ensures
        final(out)@ == old(out)@ + v@.skip(from as int),
{
    let mut i: usize = from;
    assert(out@ =~= old(out)@ + v@.subrange(from as int, i as int));
    while i < v.len()
        invariant
            from <= i <= v.len(),
            out@ == old(out)@ + v@.subrange(from as int, i as int),
        decreases v.len() - i,
    {
        out.push(v[i]);
        i += 1;
        assert(out@ =~= old(out)@ + v@.subrange(from as int, i as int));
    }
    assert(v@.subrange(from as int, i as int) =~= v@.skip(from as int));
}

/// Appends `count` line breaks.
pub fn put_line_breaks(out: &mut String, count: u16)
    ensures
        final(out)@ == old(out)@ + line_breaks(count as int),
{
    let mut i: u16 = 0;
    assert(out@ =~= old(out)@ + line_breaks(0));
    while i < count
        invariant
            i <= count,
            out@ == old(out)@ + line_breaks(i as int),
        decreases count - i,
    {
        out.append("\r\n");
        i += 1;
        assert(out@ =~= old(out)@ + line_breaks(i as int));
    }
}

/// Blanks the row and writes the prompt at its start.
pub fn put_prompt_line(out: &mut String, prefix: &str, row: u16)
    ensures
        final(out)@ == old(out)@ + prompt_line(prefix@, row),
{
    out.append(clear_current_line());
    put_goto(out, 1, row);
    out.append(prefix);
    assert(out@ =~= old(out)@ + prompt_line(prefix@, row));
}

/// Blanks the row and writes the prompt and the line.
pub fn put_full_line(out: &mut String, prefix: &str, buffer: &Vec<char>, row: u16)
    ensures
        final(out)@ == old(out)@ + full_line(prefix@, buffer@, row),
{
    put_prompt_line(out, prefix, row);
    put_chars(out, buffer, 0);
    assert(buffer@.skip(0) =~= buffer@);
    assert(out@ =~= old(out)@ + full_line(prefix@, buffer@, row));
}

/// Blanks every row below the cursor's and puts the cursor back at column
/// `x`.
pub fn put_clear_below(out: &mut String, x: u16, screen: Screen)
    ensures
        final(out)@ == old(out)@ + clear_below(x, screen),
{
    let mut r: u16 = screen.row;
    assert(out@ =~= old(out)@ + blank_rows(screen.row as int, r as int));
    while r < screen.height
        invariant
            screen.row <= r,
            r <= screen.height || r == screen.row,
            out@ == old(out)@ + blank_rows(screen.row as int, r as int),
        decreases screen.height - r,
    {
        r += 1;
        put_goto(out, 1, r);
        out.append(clear_current_line());
        assert(clamp16(r as int) == r);
        assert(out@ =~= old(out)@ + blank_rows(screen.row as int, r as int));
    }
    proof {
        if screen.height < screen.row {
            lemma_blank_rows_none(screen.row as int, screen.height as int);
        }
    }
    put_goto(out, x, screen.row);
    assert(out@ =~= old(out)@ + clear_below(x, screen));
}

/// No row is blanked where the last row lies above the first.
proof fn lemma_blank_rows_none(row: int, upto: int)
    requires
        upto <= row,
    ensures
        blank_rows(row, upto) == blank_rows(row, row),
{
}

/// Appends one row of the overlay.
pub fn put_overlay_row(
    out: &mut String,
    entry: &(String, String),
    chosen: bool,
    key_width: usize,
    value_width: usize,
)
    ensures
        final(out)@ == old(out)@ + overlay_row(
            (entry.0@, entry.1@),
            chosen,
            key_width as nat,
            value_width as nat,
        ),
{
    let ghost base = out@;
    if chosen {
        put_description_colors(out);
    } else {
        put_trigger_colors(out);
    }
    let ghost drawn = out@.skip(base.len() as int);
    assert(out@ =~= base + drawn);
    out.push(' ');
    proof {
        assert(out@ =~= (base + drawn) + seq![' ']);
        lemma_append_twice(base, drawn, seq![' ']);
        drawn = drawn + seq![' '];
    }
    push_padded(out, entry.0.as_str(), key_width);
    proof {
        lemma_append_twice(base, drawn, pad_right(entry.0@, (key_width + 2) as nat));
        drawn = drawn + pad_right(entry.0@, (key_width + 2) as nat);
    }
    let ghost half = out@;
    if chosen {
        put_trigger_colors(out);
    } else {
        put_description_colors(out);
    }
    let ghost colors = out@.skip(half.len() as int);
    proof {
        assert(out@ =~= half + colors);
        lemma_append_twice(base, drawn, colors);
        drawn = drawn + colors;
    }
    let ghost mid = out@;
    out.push(' ');
    out.push(' ');
    proof {
        assert(out@ =~= mid + seq![' ', ' ']);
        lemma_append_twice(base, drawn, seq![' ', ' ']);
        drawn = drawn + seq![' ', ' '];
    }
    push_padded(out, entry.1.as_str(), value_width);
    proof {
        lemma_append_twice(base, drawn, pad_right(entry.1@, (value_width + 2) as nat));
        drawn = drawn + pad_right(entry.1@, (value_width + 2) as nat);
    }
    put_reset_colors(out);
    proof {
        lemma_append_twice(base, drawn, crate::screen::reset_colors());
        drawn = drawn + crate::screen::reset_colors();
    }
    out.append("\r\n");
    proof {
        lemma_append_twice(base, drawn, line_break());
        drawn = drawn + line_break();
    }
}

/// Appends the rows of the overlay, one for each entry of `list`.
pub fn put_overlay_rows(
    out: &mut String,
    list: &Vec<(String, String)>,
    x: u16,
    anchor: u16,
    selection: usize,
    key_width: usize,
    value_width: usize,
)
    ensures
        final(out)@ == old(out)@ + overlay_rows(
            entries(list@),
            list.len() as int,
            x,
            anchor,
            selection as int,
            key_width as nat,
            value_width as nat,
        ),
{
    let mut i: usize = 0;
    let ghost all = entries(list@);
    assert(out@ =~= old(out)@ + overlay_rows(
        all,
        0,
        x,
        anchor,
        selection as int,
        key_width as nat,
        value_width as nat,
    ));
    while i < list.len()
        invariant
            i <= list.len(),
            all == entries(list@),
            out@ == old(out)@ + overlay_rows(
                all,
                i as int,
                x,
                anchor,
                selection as int,
                key_width as nat,
                value_width as nat,
            ),
        decreases list.len() - i,
    {
        let ghost before = out@;
        let y: u16 = saturating_sum(anchor, 0, i + 1);
        put_goto(out, x, y);
        out.append(clear_current_line());
        put_overlay_row(out, &list[i], i + 1 == selection, key_width, value_width);
        i += 1;
        proof {
            assert(all[i - 1] == (list@[i - 1].0@, list@[i - 1].1@));
            assert(out@ =~= before + goto_sequence(x, clamp16(anchor + i)) + clear_line_sequence()
                + overlay_row(all[i - 1], i == selection, key_width as nat, value_width as nat));
        }
    }
}

/// The row that the line stands on once an overlay of `size` rows has been
/// made room for. It never lies below the row the line stood on.
pub fn anchor(screen: Screen, size: usize) -> (r: u16)
    ensures
        r == anchor_row(screen, size as int),
        r <= screen.row,
{
    if size >= screen.height as usize {
        // The overlay and one more row do not fit on the screen at all.
        0
    } else {
        let room: u16 = screen.height - (size as u16) - 1;
        if room < screen.row {
            room
        } else {
            screen.row
        }
    }
}

} // verus!
