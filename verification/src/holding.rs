//! Where a piece of code occurs in other code.

use crate::tokens::{comma_separated, concatenated, grouped, Delimiter, Tok};
use vstd::prelude::*;

verus! {

/// Whether a piece of code stands at a position of other code.
pub open spec fn stands_at(code: Seq<Tok>, piece: Seq<Tok>, i: int) -> bool {
    0 <= i && i + piece.len() <= code.len() && code.subrange(i, i + piece.len()) == piece
}

/// Whether a piece of code occurs in other code, token by token: at its surface, or
/// inside one of its groups.
#[verifier::opaque]
pub open spec fn holds(code: Seq<Tok>, piece: Seq<Tok>) -> bool
    decreases code,
{
    ||| exists|i: int| stands_at(code, piece, i)
    ||| exists|i: int|
        0 <= i < code.len() && (#[trigger] code[i] is Group) && holds(code[i]->Group_1, piece)
}

/// Code holds itself.
pub broadcast proof fn code_holds_itself(code: Seq<Tok>)
    ensures
        #[trigger] holds(code, code),
{
    reveal(holds);
    assert(code.subrange(0, 0 + code.len() as int) =~= code);
    assert(stands_at(code, code, 0));
}

/// What code holds it holds with other code behind it.
pub broadcast proof fn code_holds_what_comes_first(one: Seq<Tok>, other: Seq<Tok>, piece: Seq<Tok>)
    requires
        holds(one, piece),
    ensures
        #[trigger] holds(one + other, piece),
{
    reveal(holds);
    let code = one + other;
    if exists|i: int| stands_at(one, piece, i) {
        let i = choose|i: int| stands_at(one, piece, i);
        assert(code.subrange(i, i + piece.len()) =~= one.subrange(i, i + piece.len()));
        assert(stands_at(code, piece, i));
    } else {
        let i = choose|i: int|
            0 <= i < one.len() && (#[trigger] one[i] is Group) && holds(one[i]->Group_1, piece);
        assert(code[i] == one[i]);
    }
}

/// What code holds it holds with other code in front of it.
pub broadcast proof fn code_holds_what_comes_last(one: Seq<Tok>, other: Seq<Tok>, piece: Seq<Tok>)
    requires
        holds(other, piece),
    ensures
        #[trigger] holds(one + other, piece),
{
    reveal(holds);
    let code = one + other;
    if exists|i: int| stands_at(other, piece, i) {
        let i = choose|i: int| stands_at(other, piece, i);
        let k = one.len() + i;
        assert(code.subrange(k, k + piece.len()) =~= other.subrange(i, i + piece.len()));
        assert(stands_at(code, piece, k));
    } else {
        let i = choose|i: int|
            0 <= i < other.len() && (#[trigger] other[i] is Group) && holds(
                other[i]->Group_1,
                piece,
            );
        assert(code[one.len() + i] == other[i]);
    }
}

/// What code holds it holds in a group.
pub broadcast proof fn groups_hold_their_content(
    delimiter: Delimiter,
    inner: Seq<Tok>,
    piece: Seq<Tok>,
)
    requires
        holds(inner, piece),
    ensures
        #[trigger] holds(grouped(delimiter, inner), piece),
{
    reveal(holds);
    let code = grouped(delimiter, inner);
    assert(code[0] is Group && code[0]->Group_1 == inner);
}

/// Whether code ends in a piece of code.
#[verifier::opaque]
pub open spec fn ends_in(code: Seq<Tok>, piece: Seq<Tok>) -> bool {
    piece.len() <= code.len() && code.skip(code.len() - piece.len()) == piece
}

/// Code ends in itself.
pub broadcast proof fn code_ends_in_itself(code: Seq<Tok>)
    ensures
        #[trigger] ends_in(code, code),
{
    reveal(ends_in);
    assert(code.skip(0) =~= code);
}

/// Code ends in its last part.
pub broadcast proof fn code_ends_in_its_last_part(one: Seq<Tok>, other: Seq<Tok>)
    ensures
        #[trigger] ends_in(one + other, other),
{
    reveal(ends_in);
    assert((one + other).skip((one + other).len() - other.len()) =~= other);
}

/// What code ends in stays together with what is put behind both.
pub broadcast proof fn ends_go_on(code: Seq<Tok>, piece: Seq<Tok>, more: Seq<Tok>)
    requires
        ends_in(code, piece),
    ensures
        #[trigger] ends_in(code + more, piece + more),
{
    reveal(ends_in);
    let all = code + more;
    let end = piece + more;
    assert(all.skip(all.len() - end.len()) =~= code.skip(code.len() - piece.len()) + more);
}

/// Code holds what it ends in.
pub broadcast proof fn code_holds_its_end(code: Seq<Tok>, piece: Seq<Tok>)
    requires
        ends_in(code, piece),
    ensures
        #[trigger] holds(code, piece),
{
    reveal(holds);
    reveal(ends_in);
    let i = code.len() - piece.len();
    assert(code.subrange(i, i + piece.len()) =~= code.skip(i));
    assert(stands_at(code, piece, i));
}

/// How a piece of code is found in code that is put together of several parts.
pub broadcast group group_holds {
    code_holds_itself,
    code_holds_what_comes_first,
    code_holds_what_comes_last,
    groups_hold_their_content,
    code_ends_in_itself,
    code_ends_in_its_last_part,
    ends_go_on,
    code_holds_its_end,
}

/// What a piece of code holds the code around it holds.
pub proof fn holding_is_transitive(code: Seq<Tok>, part: Seq<Tok>, piece: Seq<Tok>)
    requires
        holds(code, part),
        holds(part, piece),
    ensures
        holds(code, piece),
    decreases code,
{
    reveal(holds);
    if exists|i: int| stands_at(code, part, i) {
        broadcast use code_holds_what_comes_first, code_holds_what_comes_last;

        let i = choose|i: int| stands_at(code, part, i);
        let before = code.take(i);
        let after = code.skip(i + part.len());
        assert(code =~= before + part + after);
        assert(holds(before + part, piece));
        assert(holds(before + part + after, piece));
    } else {
        let i = choose|i: int|
            0 <= i < code.len() && (#[trigger] code[i] is Group) && holds(code[i]->Group_1, part);
        holding_is_transitive(code[i]->Group_1, part, piece);
    }
}

/// What one of several pieces holds they hold one after the other.
pub proof fn concatenated_holds_each(items: Seq<Seq<Tok>>, i: int, piece: Seq<Tok>)
    requires
        0 <= i < items.len(),
        holds(items[i], piece),
    ensures
        holds(concatenated(items), piece),
    decreases items.len(),
{
    broadcast use group_holds;

    if i < items.len() - 1 {
        concatenated_holds_each(items.drop_last(), i, piece);
    }
}

/// What one of several pieces holds they hold with commas between them.
pub proof fn comma_separated_holds_each(items: Seq<Seq<Tok>>, i: int, piece: Seq<Tok>)
    requires
        0 <= i < items.len(),
        holds(items[i], piece),
    ensures
        holds(comma_separated(items), piece),
    decreases items.len(),
{
    broadcast use group_holds;

    if i < items.len() - 1 {
        comma_separated_holds_each(items.drop_last(), i, piece);
    }
}

} // verus!
