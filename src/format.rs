use vstd::prelude::*;

use crate::package::{packages_view, Package, PackageView};

verus! {

/// How the columns of a rendered package list line up.
#[derive(Clone, Copy, Debug, PartialEq, Eq, Structural)]
pub enum AlignmentMode {
    /// One space between fields, no alignment.
    Normal,
    /// Names and versions padded to the widest of their column.
    Maxlen,
    /// As `Maxlen`, with long checksums wrapped under the checksum column.
    Multiline,
    /// As `Multiline`, with versions right-aligned in their column.
    Justify,
}

/// The line width that wrapping modes keep checksums within.
pub const LINE_WIDTH: usize = 80;

/// The fewest checksum characters a wrapped line holds, however wide the
/// name and version columns are.
pub const MIN_ROOM: usize = 16;

pub open spec fn spaces(n: nat) -> Seq<char> {
    Seq::new(n, |i: int| ' ')
}

/// `s` followed by spaces up to width `w`.
pub open spec fn pad_right(s: Seq<char>, w: nat) -> Seq<char> {
    if s.len() < w {
        s + spaces((w - s.len()) as nat)
    } else {
        s
    }
}

/// `s` preceded by spaces up to width `w`.
pub open spec fn pad_left(s: Seq<char>, w: nat) -> Seq<char> {
    if s.len() < w {
        spaces((w - s.len()) as nat) + s
    } else {
        s
    }
}

/// The checksum as rendered; a package without one renders none.
pub open spec fn checksum_text(p: PackageView) -> Seq<char> {
    match p.2 {
        Some(c) => c,
        None => Seq::empty(),
    }
}

/// The widest name, in characters.
pub open spec fn name_width(ps: Seq<PackageView>) -> nat
    decreases ps.len(),
{
    if ps.len() == 0 {
        0
    } else {
        let w = name_width(ps.drop_last());
        if ps.last().0.len() > w {
            ps.last().0.len()
        } else {
            w
        }
    }
}

/// The widest version, in characters.
pub open spec fn version_width(ps: Seq<PackageView>) -> nat
    decreases ps.len(),
{
    if ps.len() == 0 {
        0
    } else {
        let w = version_width(ps.drop_last());
        if ps.last().1.len() > w {
            ps.last().1.len()
        } else {
            w
        }
    }
}

/// Where the checksum column starts when names and versions are padded.
pub open spec fn checksum_column(wn: nat, wv: nat) -> nat {
    wn + wv + 2
}

/// How many checksum characters one line holds in a wrapping mode.
pub open spec fn wrap_room(column: nat) -> nat {
    if column + MIN_ROOM <= LINE_WIDTH {
        (LINE_WIDTH - column) as nat
    } else {
        MIN_ROOM as nat
    }
}

/// `ck` cut into pieces of `room` characters, each after the first on a
/// new line indented by `indent` spaces.
pub open spec fn wrapped(ck: Seq<char>, indent: nat, room: nat) -> Seq<char>
    decreases ck.len(),
{
    if room == 0 || ck.len() <= room {
        ck
    } else {
        ck.take(room as int) + seq!['\n'] + spaces(indent) + wrapped(
            ck.skip(room as int),
            indent,
            room,
        )
    }
}

/// Name and version with the spacing that precedes the checksum.
pub open spec fn line_head(p: PackageView, mode: AlignmentMode, wn: nat, wv: nat) -> Seq<char> {
    match mode {
        AlignmentMode::Normal => p.0 + seq![' '] + p.1 + seq![' '],
        AlignmentMode::Maxlen | AlignmentMode::Multiline => pad_right(p.0, wn) + seq![' ']
            + pad_right(p.1, wv) + seq![' '],
        AlignmentMode::Justify => pad_right(p.0, wn) + seq![' '] + pad_left(p.1, wv) + seq![' '],
    }
}

/// The checksum as it stands on its line, wrapped where the mode wraps.
pub open spec fn line_tail(ck: Seq<char>, mode: AlignmentMode, wn: nat, wv: nat) -> Seq<char> {
    match mode {
        AlignmentMode::Multiline | AlignmentMode::Justify => wrapped(
            ck,
            checksum_column(wn, wv),
            wrap_room(checksum_column(wn, wv)),
        ),
        _ => ck,
    }
}

pub open spec fn rendered_line(p: PackageView, mode: AlignmentMode, wn: nat, wv: nat) -> Seq<
    char,
> {
    line_head(p, mode, wn, wv) + line_tail(checksum_text(p), mode, wn, wv)
}

/// The lines of `ps`, in order, separated by newlines.
pub open spec fn rendered_lines(ps: Seq<PackageView>, mode: AlignmentMode, wn: nat, wv: nat) -> Seq<
    char,
>
    decreases ps.len(),
{
    if ps.len() == 0 {
        Seq::empty()
    } else if ps.len() == 1 {
        rendered_line(ps[0], mode, wn, wv)
    } else {
        rendered_lines(ps.drop_last(), mode, wn, wv) + seq!['\n'] + rendered_line(
            ps.last(),
            mode,
            wn,
            wv,
        )
    }
}

/// The block that `ps` renders to under `mode`, with column widths taken
/// over every package.
pub open spec fn rendered(ps: Seq<PackageView>, mode: AlignmentMode) -> Seq<char> {
    rendered_lines(ps, mode, name_width(ps), version_width(ps))
}

fn push_spaces(out: &mut String, n: usize)
    ensures
        final(out)@ == old(out)@ + spaces(n as nat),
{
    let mut i: usize = 0;
    while i < n
        invariant
            i <= n,
            out@ == old(out)@ + spaces(i as nat),
        decreases n - i,
    {
        proof {
            reveal_strlit(" ");
        }
        out.append(" ");
        proof {
            assert(old(out)@ + spaces((i + 1) as nat) =~= old(out)@ + spaces(i as nat) + seq![' ']);
        }
        i = i + 1;
    }
}

fn push_padded_right(out: &mut String, s: &str, w: usize)
    ensures
        final(out)@ == old(out)@ + pad_right(s@, w as nat),
{
    let len = s.unicode_len();
    out.append(s);
    if len < w {
        push_spaces(out, w - len);
    }
    proof {
        assert(final(out)@ =~= old(out)@ + pad_right(s@, w as nat));
    }
}

fn push_padded_left(out: &mut String, s: &str, w: usize)
    ensures
        final(out)@ == old(out)@ + pad_left(s@, w as nat),
{
    let len = s.unicode_len();
    if len < w {
        push_spaces(out, w - len);
    }
    out.append(s);
    proof {
        assert(final(out)@ =~= old(out)@ + pad_left(s@, w as nat));
    }
}

/// Appends the indentation of a continuation line: `wn + wv + 2` spaces.
fn push_indent(out: &mut String, wn: usize, wv: usize)
    ensures
        final(out)@ == old(out)@ + spaces(checksum_column(wn as nat, wv as nat)),
{
    push_spaces(out, wn);
    push_spaces(out, wv);
    push_spaces(out, 2);
    proof {
        assert(final(out)@ =~= old(out)@ + spaces(checksum_column(wn as nat, wv as nat)));
    }
}

fn push_wrapped(out: &mut String, ck: &str, wn: usize, wv: usize, room: usize)
    requires
        room > 0,
    ensures
        final(out)@ == old(out)@ + wrapped(ck@, checksum_column(wn as nat, wv as nat), room as nat),
{
    let ghost col = checksum_column(wn as nat, wv as nat);
    let n = ck.unicode_len();
    let mut start: usize = 0;
    assert(ck@.skip(0) =~= ck@);
    while n - start > room
        invariant
            start <= n,
            n == ck@.len(),
            room > 0,
            col == checksum_column(wn as nat, wv as nat),
            out@ + wrapped(ck@.skip(start as int), col, room as nat) == old(out)@ + wrapped(
                ck@,
                col,
                room as nat,
            ),
        decreases n - start,
    {
        let ghost before = out@;
        let ghost rest = ck@.skip(start as int);
        proof {
            assert(rest.take(room as int) =~= ck@.subrange(start as int, (start + room) as int));
            assert(rest.skip(room as int) =~= ck@.skip((start + room) as int));
        }
        out.append(ck.substring_char(start, start + room));
        proof {
            reveal_strlit("\n");
        }
        out.append("\n");
        push_indent(out, wn, wv);
        start = start + room;
        proof {
            assert(before + wrapped(rest, col, room as nat) =~= out@ + wrapped(
                ck@.skip(start as int),
                col,
                room as nat,
            ));
        }
    }
    let ghost before = out@;
    out.append(ck.substring_char(start, n));
    proof {
        assert(ck@.skip(start as int) =~= ck@.subrange(start as int, n as int));
        assert(out@ =~= before + wrapped(ck@.skip(start as int), col, room as nat));
    }
}

fn widths(packages: &Vec<Package>) -> (r: (usize, usize))
    ensures
        r.0 == name_width(packages_view(packages@)),
        r.1 == version_width(packages_view(packages@)),
{
    let ghost pv = packages_view(packages@);
    let mut wn: usize = 0;
    let mut wv: usize = 0;
    let mut i: usize = 0;
    while i < packages.len()
        invariant
            i <= packages.len(),
            pv == packages_view(packages@),
            wn == name_width(pv.take(i as int)),
            wv == version_width(pv.take(i as int)),
        decreases packages.len() - i,
    {
        let ln = packages[i].name.as_str().unicode_len();
        let lv = packages[i].version.as_str().unicode_len();
        proof {
            assert(pv.take(i + 1).drop_last() =~= pv.take(i as int));
        }
        if ln > wn {
            wn = ln;
        }
        if lv > wv {
            wv = lv;
        }
        i = i + 1;
    }
    proof {
        assert(pv.take(i as int) =~= pv);
    }
    (wn, wv)
}

fn room_for(wn: usize, wv: usize) -> (r: usize)
    ensures
        r == wrap_room(checksum_column(wn as nat, wv as nat)),
        r > 0,
{
    if wn <= LINE_WIDTH && wv <= LINE_WIDTH && wn + wv + 2 + MIN_ROOM <= LINE_WIDTH {
        LINE_WIDTH - (wn + wv + 2)
    } else {
        MIN_ROOM
    }
}

fn push_line(out: &mut String, p: &Package, mode: AlignmentMode, wn: usize, wv: usize, room: usize)
    requires
        room == wrap_room(checksum_column(wn as nat, wv as nat)),
        room > 0,
    ensures
        final(out)@ == old(out)@ + rendered_line(p@, mode, wn as nat, wv as nat),
{
    proof {
        reveal_strlit(" ");
        reveal_strlit("");
    }
    match mode {
        AlignmentMode::Normal => {
            out.append(p.name.as_str());
            out.append(" ");
            out.append(p.version.as_str());
            out.append(" ");
        },
        AlignmentMode::Maxlen | AlignmentMode::Multiline => {
            push_padded_right(out, p.name.as_str(), wn);
            out.append(" ");
            push_padded_right(out, p.version.as_str(), wv);
            out.append(" ");
        },
        AlignmentMode::Justify => {
            push_padded_right(out, p.name.as_str(), wn);
            out.append(" ");
            push_padded_left(out, p.version.as_str(), wv);
            out.append(" ");
        },
    }
    let ghost head = out@;
    let ck: &str = match &p.checksum {
        Some(c) => c.as_str(),
        None => "",
    };
    assert(ck@ == checksum_text(p@));
    match mode {
        AlignmentMode::Multiline | AlignmentMode::Justify => {
            push_wrapped(out, ck, wn, wv, room);
        },
        _ => {
            out.append(ck);
        },
    }
    proof {
        assert(head =~= old(out)@ + line_head(p@, mode, wn as nat, wv as nat));
        assert(final(out)@ =~= old(out)@ + rendered_line(p@, mode, wn as nat, wv as nat));
    }
}

/// Renders `packages` as one text block, one package per line (a wrapped
/// checksum continues on further lines), under `mode`.
pub fn format_cargo_crates(packages: &Vec<Package>, mode: AlignmentMode) -> (r: String)
    ensures
        r@ == rendered(packages_view(packages@), mode),
{
    let ghost pv = packages_view(packages@);
    let (wn, wv) = widths(packages);
    let room = room_for(wn, wv);
    let mut out = String::new();
    let mut i: usize = 0;
    while i < packages.len()
        invariant
            i <= packages.len(),
            pv == packages_view(packages@),
            room == wrap_room(checksum_column(wn as nat, wv as nat)),
            room > 0,
            out@ == rendered_lines(pv.take(i as int), mode, wn as nat, wv as nat),
        decreases packages.len() - i,
    {
        let ghost prev = out@;
        if i > 0 {
            proof {
                reveal_strlit("\n");
            }
            out.append("\n");
        }
        push_line(&mut out, &packages[i], mode, wn, wv, room);
        proof {
            assert(pv.take(i + 1).drop_last() =~= pv.take(i as int));
            assert(pv.take(i + 1).last() == packages@[i as int]@);
            if i > 0 {
                assert(out@ =~= prev + seq!['\n'] + rendered_line(packages@[i as int]@, mode, wn as nat, wv as nat));
            } else {
                assert(out@ =~= rendered_line(packages@[i as int]@, mode, wn as nat, wv as nat));
                assert(pv.take(1)[0] == packages@[0]@);
            }
        }
        i = i + 1;
    }
    proof {
        assert(pv.take(i as int) =~= pv);
    }
    out
}

/// The block to print for a merged package list, or `None` where no
/// package is left to show.
pub fn formatted_block(packages: &Vec<Package>, mode: AlignmentMode) -> (r: Option<String>)
    ensures
        r is None <==> packages@.len() == 0,
        r matches Some(s) ==> s@ == rendered(packages_view(packages@), mode),
{
    if packages.len() == 0 {
        None
    } else {
        Some(format_cargo_crates(packages, mode))
    }
}

/// Rendering depends on the package list and the mode alone: the same
/// list rendered twice under one mode gives the same block.
pub proof fn lemma_render_deterministic(a: Seq<PackageView>, b: Seq<PackageView>, mode: AlignmentMode)
    requires
        a == b,
    ensures
        rendered(a, mode) == rendered(b, mode),
{
}

proof fn lemma_widths_bound(ps: Seq<PackageView>)
    ensures
        forall|k: int|
            0 <= k < ps.len() ==> (#[trigger] ps[k]).0.len() <= name_width(ps) && ps[k].1.len()
                <= version_width(ps),
    decreases ps.len(),
{
    if ps.len() > 0 {
        lemma_widths_bound(ps.drop_last());
        assert forall|k: int| 0 <= k < ps.len() implies (#[trigger] ps[k]).0.len() <= name_width(
            ps,
        ) && ps[k].1.len() <= version_width(ps) by {
            if k < ps.len() - 1 {
                assert(ps[k] == ps.drop_last()[k]);
            }
        }
    }
}

/// Under every mode but `Normal`, each line starts with its name padded
/// to the widest name of the list, then its version padded to the widest
/// version, so that every checksum starts in the same column.
pub proof fn lemma_padded_columns(ps: Seq<PackageView>, mode: AlignmentMode, k: int)
    requires
        0 <= k < ps.len(),
        mode != AlignmentMode::Normal,
    ensures
        ({
            let wn = name_width(ps);
            let wv = version_width(ps);
            let head = line_head(ps[k], mode, wn, wv);
            &&& head.len() == checksum_column(wn, wv)
            &&& head.take(wn as int) == pad_right(ps[k].0, wn)
            &&& pad_right(ps[k].0, wn).len() == wn
        }),
{
    lemma_widths_bound(ps);
    let wn = name_width(ps);
    let wv = version_width(ps);
    let p = ps[k];
    let head = line_head(p, mode, wn, wv);
    assert(pad_right(p.0, wn).len() == wn);
    assert(pad_right(p.1, wv).len() == wv);
    assert(pad_left(p.1, wv).len() == wv);
    assert(head.take(wn as int) =~= pad_right(p.0, wn));
}

} // verus!
