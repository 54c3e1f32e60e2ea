//! The table-of-contents builder: turns the ordered heading records into a
//! nested unordered-list fragment wrapped in a `<nav>` element.

use vstd::prelude::*;
use vstd::string::StringExecFns;
use crate::events::{HeadingRec, HeadingRecord, view_headings};
use crate::escape::{escape_into, escape_seq};

verus! {

/// One step down the heading scale, clamped at level 6.
pub open spec fn next_level_spec(l: int) -> int {
    if l < 6 {
        l + 1
    } else {
        6
    }
}

/// One step up the heading scale, clamped at level 1.
pub open spec fn prev_level_spec(l: int) -> int {
    if l > 1 {
        l - 1
    } else {
        1
    }
}

/// The next deeper heading level, never past 6.
pub fn next_level(level: u32) -> (r: u32)
    ensures
        r == next_level_spec(level as int),
{
    if level < 6 {
        level + 1
    } else {
        6
    }
}

/// The next shallower heading level, never below 1.
pub fn prev_level(level: u32) -> (r: u32)
    ensures
        r == prev_level_spec(level as int),
{
    if level > 1 {
        level - 1
    } else {
        1
    }
}

/// The `<ul>` openers emitted while the current level is above the target:
/// one per level step, clamped at 6.
pub open spec fn open_uls(cur: int, target: int) -> Seq<char>
    decreases 6 - cur,
{
    if target > cur && cur < 6 {
        "<ul>\n"@ + open_uls(cur + 1, target)
    } else {
        Seq::empty()
    }
}

/// The `</ul>` closers emitted while the current level is below the target:
/// one per level step, clamped at 1.
pub open spec fn close_uls(cur: int, target: int) -> Seq<char>
    decreases cur,
{
    if target < cur && cur > 1 {
        "</ul>\n"@ + close_uls(cur - 1, target)
    } else {
        Seq::empty()
    }
}

/// The current level after the openers toward a deeper target.
pub open spec fn open_result(cur: int, target: int) -> int
    decreases 6 - cur,
{
    if target > cur && cur < 6 {
        open_result(cur + 1, target)
    } else {
        cur
    }
}

/// The current level after the closers toward a shallower target.
pub open spec fn close_result(cur: int, target: int) -> int
    decreases cur,
{
    if target < cur && cur > 1 {
        close_result(cur - 1, target)
    } else {
        cur
    }
}

/// The current level after moving toward a target: the target clamped into
/// [1, 6], or the unchanged level when the target equals it.
pub open spec fn moved_level(cur: int, target: int) -> int {
    if target > cur {
        if target < 6 {
            target
        } else {
            6
        }
    } else if target < cur {
        if target > 1 {
            target
        } else {
            1
        }
    } else {
        cur
    }
}

proof fn lemma_open_result(cur: int, target: int)
    requires
        1 <= cur <= 6,
    ensures
        open_result(cur, target) == if target > cur {
            if target < 6 {
                target
            } else {
                6
            }
        } else {
            cur
        },
        1 <= open_result(cur, target) <= 6,
    decreases 6 - cur,
{
    if target > cur && cur < 6 {
        lemma_open_result(cur + 1, target);
    }
}

proof fn lemma_close_result(cur: int, target: int)
    requires
        1 <= cur <= 6,
    ensures
        close_result(cur, target) == if target < cur {
            if target > 1 {
                target
            } else {
                1
            }
        } else {
            cur
        },
        1 <= close_result(cur, target) <= 6,
    decreases cur,
{
    if target < cur && cur > 1 {
        lemma_close_result(cur - 1, target);
    }
}

/// Opening toward the target and then closing toward it lands on the moved
/// level, and only one of the two emits anything.
proof fn lemma_moved(cur: int, target: int)
    requires
        1 <= cur <= 6,
    ensures
        close_result(open_result(cur, target), target) == moved_level(cur, target),
        1 <= moved_level(cur, target) <= 6,
        close_uls(open_result(cur, target), target) == close_uls(cur, target),
{
    lemma_open_result(cur, target);
    lemma_close_result(open_result(cur, target), target);
    if target > cur {
        assert(close_uls(open_result(cur, target), target) =~= Seq::<char>::empty());
        assert(close_uls(cur, target) =~= Seq::<char>::empty());
    }
}

/// One TOC entry: the link for one heading record, its label escaped here,
/// independently of the body.
pub open spec fn toc_entry(h: HeadingRec) -> Seq<char> {
    "<li><a href=\"#"@ + h.anchor + "\">"@ + escape_seq(h.text) + "</a></li>\n"@
}

/// The items of the TOC from a current level on, with the final closers back
/// down to level 1.
pub open spec fn toc_items(hs: Seq<HeadingRec>, cur: int) -> Seq<char>
    decreases hs.len(),
{
    if hs.len() == 0 {
        close_uls(cur, 1)
    } else {
        open_uls(cur, hs[0].level) + close_uls(cur, hs[0].level) + toc_entry(hs[0]) + toc_items(
            hs.skip(1),
            moved_level(cur, hs[0].level),
        )
    }
}

/// The whole TOC fragment.
pub open spec fn toc_html(hs: Seq<HeadingRec>) -> Seq<char> {
    "<nav>\n<h2>Table of Contents</h2>\n<ul>\n"@ + toc_items(hs, 1) + "</ul>\n</nav>\n"@
}

fn emit_open_uls(out: &mut String, cur: u32, target: u32) -> (r: u32)
    requires
        1 <= cur <= 6,
    ensures
        final (out)@ == old(out)@ + open_uls(cur as int, target as int),
        r as int == open_result(cur as int, target as int),
        1 <= r <= 6,
    decreases 6 - cur,
{
    if target > cur && cur < 6 {
        out.append("<ul>\n");
        let r = emit_open_uls(out, cur + 1, target);
        proof {
            assert(out@ =~= old(out)@ + open_uls(cur as int, target as int));
        }
        r
    } else {
        proof {
            assert(out@ =~= old(out)@ + open_uls(cur as int, target as int));
        }
        cur
    }
}

fn emit_close_uls(out: &mut String, cur: u32, target: u32) -> (r: u32)
    requires
        1 <= cur <= 6,
    ensures
        final (out)@ == old(out)@ + close_uls(cur as int, target as int),
        r as int == close_result(cur as int, target as int),
        1 <= r <= 6,
    decreases cur,
{
    if target < cur && cur > 1 {
        out.append("</ul>\n");
        let r = emit_close_uls(out, cur - 1, target);
        proof {
            assert(out@ =~= old(out)@ + close_uls(cur as int, target as int));
        }
        r
    } else {
        proof {
            assert(out@ =~= old(out)@ + close_uls(cur as int, target as int));
        }
        cur
    }
}

/// Builds the TOC fragment from the heading records, in their order.
pub fn generate_toc(headings: &Vec<HeadingRecord>) -> (r: String)
    ensures
        r@ == toc_html(view_headings(headings@)),
{
    let ghost hs = view_headings(headings@);
    let mut out = "<nav>\n<h2>Table of Contents</h2>\n<ul>\n".to_owned();
    let mut cur: u32 = 1;
    let mut i: usize = 0;
    proof {
        assert(hs.skip(0) =~= hs);
    }
    while i < headings.len()
        invariant
            i <= headings.len(),
            1 <= cur <= 6,
            hs == view_headings(headings@),
            hs.len() == headings@.len(),
            out@ + toc_items(hs.skip(i as int), cur as int) == "<nav>\n<h2>Table of Contents</h2>\n<ul>\n"@
                + toc_items(hs, 1),
        decreases headings.len() - i,
    {
        let ghost out0 = out@;
        let h = &headings[i];
        let target = h.level;
        let c1 = emit_open_uls(&mut out, cur, target);
        let c2 = emit_close_uls(&mut out, c1, target);
        out.append("<li><a href=\"#");
        out.append(h.anchor.as_str());
        out.append("\">");
        escape_into(&mut out, h.text.as_str());
        out.append("</a></li>\n");
        proof {
            lemma_moved(cur as int, target as int);
            assert(hs.skip(i as int).skip(1) =~= hs.skip(i as int + 1));
            assert(hs.skip(i as int)[0] == hs[i as int]);
            assert(out@ =~= out0 + open_uls(cur as int, target as int) + close_uls(
                cur as int,
                target as int,
            ) + toc_entry(hs[i as int]));
            assert(out@ + toc_items(hs.skip(i as int + 1), c2 as int) =~= out0 + toc_items(
                hs.skip(i as int),
                cur as int,
            ));
        }
        cur = c2;
        i += 1;
    }
    let ghost out1 = out@;
    let _c = emit_close_uls(&mut out, cur, 1);
    out.append("</ul>\n</nav>\n");
    proof {
        assert(hs.skip(hs.len() as int) =~= Seq::<HeadingRec>::empty());
        assert(toc_items(hs.skip(hs.len() as int), cur as int) == close_uls(cur as int, 1));
        assert(out@ =~= toc_html(hs));
    }
    out
}

} // verus!
