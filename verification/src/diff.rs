use vstd::prelude::*;

verus! {

/// What a piece of a character diff does.
#[derive(Clone, Copy, Debug, PartialEq, Eq, Structural)]
pub enum DiffTag {
    Equal,
    Delete,
    Insert,
}

/// A run of text of a diff with what is done to it.
pub struct DiffPiece {
    pub tag: DiffTag,
    pub value: String,
}

/// A piece read as its tag and its text.
pub open spec fn piece_view(p: DiffPiece) -> (DiffTag, Seq<char>) {
    (p.tag, p.value@)
}

/// The pieces of a diff, read as tags and texts.
pub open spec fn pieces_view(ps: Seq<DiffPiece>) -> Seq<(DiffTag, Seq<char>)> {
    ps.map_values(|p: DiffPiece| piece_view(p))
}

/// What `similar::TextDiff::from_chars(old, new).iter_all_changes()` yields, as
/// tags and texts.
pub uninterp spec fn char_diff(old: Seq<char>, new: Seq<char>) -> Seq<(DiffTag, Seq<char>)>;

/// The text that a diff keeps or deletes, in order: the old side.
pub open spec fn old_side(ps: Seq<(DiffTag, Seq<char>)>) -> Seq<char>
    decreases ps.len(),
{
    if ps.len() == 0 {
        Seq::empty()
    } else {
        old_side(ps.drop_last()) + match ps.last().0 {
            DiffTag::Insert => Seq::empty(),
            _ => ps.last().1,
        }
    }
}

/// The text that a diff keeps or inserts, in order: the new side.
pub open spec fn new_side(ps: Seq<(DiffTag, Seq<char>)>) -> Seq<char>
    decreases ps.len(),
{
    if ps.len() == 0 {
        Seq::empty()
    } else {
        new_side(ps.drop_last()) + match ps.last().0 {
            DiffTag::Delete => Seq::empty(),
            _ => ps.last().1,
        }
    }
}

/// The character diff of `old` and `new`.
///
/// Calls `similar::TextDiff::from_chars` and `iter_all_changes`, mapping each
/// change to its tag and text. The contract names the result as a function of
/// the two texts, and claims what the crate's changes always satisfy: each
/// piece is one character, the kept and deleted texts spell `old`, the kept and
/// inserted texts spell `new`, and equal texts give kept pieces only. Which diff
/// among the valid ones comes out is left unsaid.
#[verifier::external_body]
fn diff_chars(old: &str, new: &str) -> (r: Vec<DiffPiece>)
    ensures
        pieces_view(r@) == char_diff(old@, new@),
        forall|i: int| 0 <= i < r@.len() ==> (#[trigger] pieces_view(r@)[i]).1.len() == 1,
        old_side(pieces_view(r@)) == old@,
        new_side(pieces_view(r@)) == new@,
        old@ == new@ ==> forall|i: int|
            0 <= i < r@.len() ==> (#[trigger] pieces_view(r@)[i]).0 == DiffTag::Equal,
{
    similar::TextDiff::from_chars(old, new).iter_all_changes().map(
        |c| match c.tag() {
            similar::ChangeTag::Equal => DiffPiece { tag: DiffTag::Equal, value: c.value().to_string() },
            similar::ChangeTag::Delete => DiffPiece { tag: DiffTag::Delete, value: c.value().to_string() },
            similar::ChangeTag::Insert => DiffPiece { tag: DiffTag::Insert, value: c.value().to_string() },
        },
    ).collect()
}

/// A piece as shown on a terminal: deleted text in red, inserted text in
/// green, kept text as it is.
pub open spec fn render_piece(p: (DiffTag, Seq<char>)) -> Seq<char> {
    match p.0 {
        DiffTag::Delete => "\x1b[31m"@ + p.1 + "\x1b[0m"@,
        DiffTag::Insert => "\x1b[32m"@ + p.1 + "\x1b[0m"@,
        DiffTag::Equal => p.1,
    }
}

/// The pieces of a diff shown one after the other.
pub open spec fn render(ps: Seq<(DiffTag, Seq<char>)>) -> Seq<char>
    decreases ps.len(),
{
    if ps.len() == 0 {
        Seq::empty()
    } else {
        render(ps.drop_last()) + render_piece(ps.last())
    }
}

/// Shows the pieces of a diff with terminal colours.
pub fn render_diff(pieces: &[DiffPiece]) -> (s: String)
    ensures
        s@ == render(pieces_view(pieces@)),
{
    let ghost all = pieces_view(pieces@);
    let mut s = String::new();
    let n = pieces.len();
    let mut i: usize = 0;
    while i < n
        invariant
            i <= n,
            n == pieces@.len(),
            all == pieces_view(pieces@),
            s@ == render(all.take(i as int)),
        decreases n - i,
    {
        proof {
            assert(all.take(i + 1).drop_last() =~= all.take(i as int));
            assert(all.take(i + 1).last() == piece_view(pieces@[i as int]));
        }
        let p = &pieces[i];
        match p.tag {
            DiffTag::Delete => {
                s.append("\x1b[31m");
                s.append(p.value.as_str());
                s.append("\x1b[0m");
            },
            DiffTag::Insert => {
                s.append("\x1b[32m");
                s.append(p.value.as_str());
                s.append("\x1b[0m");
            },
            DiffTag::Equal => {
                s.append(p.value.as_str());
            },
        }
        i = i + 1;
    }
    proof {
        assert(all.take(n as int) =~= all);
    }
    s
}

/// Shows how `corrected` differs from `original`, character by character, with
/// deletions in red and insertions in green. The pieces shown are the character
/// diff of the two texts; read without colours, the kept and deleted ones spell
/// `original` and the kept and inserted ones spell `corrected`.
pub fn show_diff(original: &str, corrected: &str) -> (s: String)
    ensures
        s@ == render(char_diff(original@, corrected@)),
        old_side(char_diff(original@, corrected@)) == original@,
        new_side(char_diff(original@, corrected@)) == corrected@,
        forall|i: int|
            0 <= i < char_diff(original@, corrected@).len() ==> (#[trigger] char_diff(
                original@,
                corrected@,
            )[i]).1.len() == 1,
        original@ == corrected@ ==> s@ == original@,
{
    let pieces = diff_chars(original, corrected);
    proof {
        if original@ == corrected@ {
            law_kept_pieces_render_as_text(pieces_view(pieces@));
        }
    }
    render_diff(&pieces)
}

/// A diff of kept pieces only is shown as the text it keeps, without colours.
pub proof fn law_kept_pieces_render_as_text(ps: Seq<(DiffTag, Seq<char>)>)
    requires
        forall|i: int| 0 <= i < ps.len() ==> (#[trigger] ps[i]).0 == DiffTag::Equal,
    ensures
        render(ps) == old_side(ps),
    decreases ps.len(),
{
    if ps.len() > 0 {
        assert forall|i: int| 0 <= i < ps.drop_last().len() implies (
        #[trigger] ps.drop_last()[i]).0 == DiffTag::Equal by {
            assert(ps.drop_last()[i] == ps[i]);
        }
        law_kept_pieces_render_as_text(ps.drop_last());
        assert(ps.last() == ps[ps.len() - 1]);
    }
}

} // verus!
