//! Positional-placeholder generation for parameterized bulk-write
//! statements.
//!
//! A bulk write for `n` rows of `f` fields needs `n` parenthesized groups
//! of `f` sequential positional markers, comma-joined: for two rows of
//! two fields, `($1, $2), ($3, $4)`.  The spec functions here pin the
//! generated text down to the character, by rendering the sequence of
//! marker-index groups; the executable builders are proved to produce
//! exactly that rendering.

use vstd::prelude::*;
use vstd::string::StringExecFns;

use crate::errors::IngestError;

verus! {

/// The character for one decimal digit.
pub open spec fn digit_char(d: int) -> char {
    if d == 0 {
        '0'
    } else if d == 1 {
        '1'
    } else if d == 2 {
        '2'
    } else if d == 3 {
        '3'
    } else if d == 4 {
        '4'
    } else if d == 5 {
        '5'
    } else if d == 6 {
        '6'
    } else if d == 7 {
        '7'
    } else if d == 8 {
        '8'
    } else {
        '9'
    }
}

/// The decimal rendering of a non-negative integer, most significant
/// digit first.
pub open spec fn dec_digits(n: int) -> Seq<char>
    recommends
        n >= 0,
    decreases n,
{
    if n < 10 {
        seq![digit_char(n)]
    } else {
        dec_digits(n / 10).push(digit_char(n % 10))
    }
}

/// `count` consecutive integers starting at `start`.
pub open spec fn idx_seq(start: int, count: int) -> Seq<int> {
    Seq::new(count as nat, |j: int| start + j)
}

/// The text of the markers after the first one inside a group: `, $i`
/// for each index `i`.
pub open spec fn render_tail(ids: Seq<int>) -> Seq<char>
    decreases ids.len(),
{
    if ids.len() == 0 {
        Seq::empty()
    } else {
        seq![',', ' ', '$'] + dec_digits(ids[0]) + render_tail(ids.drop_first())
    }
}

/// The text of one parenthesized placeholder group for the given marker
/// indices.
pub open spec fn render_group(ids: Seq<int>) -> Seq<char> {
    if ids.len() == 0 {
        seq!['(', ')']
    } else {
        seq!['(', '$'] + dec_digits(ids[0]) + render_tail(ids.drop_first()) + seq![')']
    }
}

/// The text of the groups after the first one: `, (...)` for each group.
pub open spec fn render_groups_tail(groups: Seq<Seq<int>>) -> Seq<char>
    decreases groups.len(),
{
    if groups.len() == 0 {
        Seq::empty()
    } else {
        seq![',', ' '] + render_group(groups[0]) + render_groups_tail(groups.drop_first())
    }
}

/// The comma-joined text of all groups.
pub open spec fn render_groups(groups: Seq<Seq<int>>) -> Seq<char>
    recommends
        groups.len() >= 1,
{
    if groups.len() == 0 {
        Seq::empty()
    } else {
        render_group(groups[0]) + render_groups_tail(groups.drop_first())
    }
}

/// `count` groups of `f` consecutive marker indices each, the first one
/// starting at `start`.
pub open spec fn groups_from(start: int, f: int, count: int) -> Seq<Seq<int>> {
    Seq::new(count as nat, |i: int| idx_seq(start + i * f, f))
}

/// The marker-index groups of a statement for `n` rows of `f` fields:
/// group `i` holds the `f` consecutive indices beginning at `1 + i*f`.
pub open spec fn marker_groups(n: int, f: int) -> Seq<Seq<int>> {
    groups_from(1, f, n)
}

/// The full placeholder text for `n` rows of `f` fields.
pub open spec fn spec_placeholders(n: int, f: int) -> Seq<char> {
    render_groups(marker_groups(n, f))
}

/// The single-character string for a decimal digit.
fn digit_str(d: usize) -> (r: &'static str)
    requires
        d <= 9,
    ensures
        r@ =~= seq![digit_char(d as int)],
{
    proof {
        reveal_strlit("0");
        reveal_strlit("1");
        reveal_strlit("2");
        reveal_strlit("3");
        reveal_strlit("4");
        reveal_strlit("5");
        reveal_strlit("6");
        reveal_strlit("7");
        reveal_strlit("8");
        reveal_strlit("9");
    }
    match d {
        0 => "0",
        1 => "1",
        2 => "2",
        3 => "3",
        4 => "4",
        5 => "5",
        6 => "6",
        7 => "7",
        8 => "8",
        _ => "9",
    }
}

/// Appends the decimal rendering of `n`.
fn push_dec(s: &mut String, n: usize)
    ensures
        final(s)@ == old(s)@ + dec_digits(n as int),
    decreases n,
{
    if n < 10 {
        s.append(digit_str(n));
        proof {
            assert(s@ =~= old(s)@ + dec_digits(n as int));
        }
    } else {
        push_dec(s, n / 10);
        s.append(digit_str(n % 10));
        proof {
            assert(s@ =~= old(s)@ + dec_digits(n as int));
        }
    }
}

/// Appends the decimal rendering of a wide value.
pub fn push_dec_u128(s: &mut String, n: u128)
    ensures
        final(s)@ == old(s)@ + dec_digits(n as int),
    decreases n,
{
    if n < 10 {
        s.append(digit_str(n as usize));
        proof {
            assert(s@ =~= old(s)@ + dec_digits(n as int));
        }
    } else {
        push_dec_u128(s, n / 10);
        s.append(digit_str((n % 10) as usize));
        proof {
            assert(s@ =~= old(s)@ + dec_digits(n as int));
        }
    }
}

/// Appends `, $i` markers for `count` consecutive indices starting at
/// `*start_num`, advancing `*start_num` past them.
fn push_markers(s: &mut String, start_num: &mut usize, count: usize)
    requires
        *old(start_num) + count <= usize::MAX,
    ensures
        final(s)@ == old(s)@ + render_tail(idx_seq(*old(start_num) as int, count as int)),
        *final(start_num) == *old(start_num) + count,
    decreases count,
{
    if count > 0 {
        s.append(", $");
        push_dec(s, *start_num);
        *start_num = *start_num + 1;
        push_markers(s, start_num, count - 1);
        proof {
            reveal_strlit(", $");
            let ids = idx_seq(*old(start_num) as int, count as int);
            assert(ids.drop_first() =~= idx_seq(*old(start_num) as int + 1, count as int - 1));
            assert(s@ =~= old(s)@ + render_tail(ids));
        }
    } else {
        proof {
            assert(s@ =~= old(s)@ + render_tail(idx_seq(*old(start_num) as int, 0)));
        }
    }
}

/// Builds one parenthesized placeholder group of `fields_count`
/// sequential positional markers starting at `*start_num`, such as
/// `($1, $2, $3)`, and advances `*start_num` past the used indices.
/// Zero fields are a caller bug and are rejected.
pub fn create_placeholder(start_num: &mut usize, fields_count: usize) -> (r: Result<
    String,
    IngestError,
>)
    requires
        *old(start_num) + fields_count <= usize::MAX,
    ensures
        fields_count == 0 ==> (r matches Err(e) && e == IngestError::EmptyInput && *final(start_num)
            == *old(start_num)),
        fields_count >= 1 ==> (r matches Ok(s) && s@ == render_group(
            idx_seq(*old(start_num) as int, fields_count as int),
        ) && *final(start_num) == *old(start_num) + fields_count),
{
    if fields_count < 1 {
        return Err(IngestError::EmptyInput);
    }
    let mut s = String::from_str("($");
    push_dec(&mut s, *start_num);
    *start_num = *start_num + 1;
    push_markers(&mut s, start_num, fields_count - 1);
    s.append(")");
    proof {
        reveal_strlit("($");
        reveal_strlit(")");
        let ids = idx_seq(*old(start_num) as int, fields_count as int);
        assert(ids.drop_first() =~= idx_seq(*old(start_num) as int + 1, fields_count as int - 1));
        assert(s@ =~= render_group(ids));
    }
    Ok(s)
}

/// Builds the full placeholder text for `items_count` rows of
/// `fields_count` fields each, such as `($1, $2), ($3, $4)`.  Zero rows
/// or zero fields are a caller bug and are rejected.
pub fn create_placeholders(items_count: usize, fields_count: usize) -> (r: Result<
    String,
    IngestError,
>)
    requires
        items_count * fields_count + 1 <= usize::MAX,
    ensures
        (items_count == 0 || fields_count == 0) ==> (r matches Err(e) && e
            == IngestError::EmptyInput),
        (items_count >= 1 && fields_count >= 1) ==> (r matches Ok(s) && s@ == spec_placeholders(
            items_count as int,
            fields_count as int,
        )),
{
    if items_count < 1 {
        return Err(IngestError::EmptyInput);
    }
    proof {
        assert(1 * fields_count <= items_count * fields_count) by (nonlinear_arith)
            requires
                items_count >= 1,
        ;
    }
    let mut start_num: usize = 1;
    let first = create_placeholder(&mut start_num, fields_count)?;
    let ghost n = items_count as int;
    let ghost f = fields_count as int;
    proof {
        assert(marker_groups(n, f)[0] =~= idx_seq(1, f));
        assert(marker_groups(n, f).drop_first() =~= groups_from(1 + f, f, n - 1)) by {
            assert forall|i: int| 0 <= i < n - 1 implies marker_groups(n, f).drop_first()[i]
                == groups_from(1 + f, f, n - 1)[i] by {
                assert((i + 1) * f == f + i * f) by (nonlinear_arith);
                assert(idx_seq(1 + (i + 1) * f, f) =~= idx_seq(1 + f + i * f, f));
            }
        }
    }
    let mut s = first;
    let mut i: usize = 1;
    while i < items_count
        invariant
            1 <= i <= items_count,
            fields_count >= 1,
            items_count * fields_count + 1 <= usize::MAX,
            start_num == 1 + i * fields_count,
            s@ + render_groups_tail(groups_from(1 + i * f, f, n - i)) == spec_placeholders(n, f),
            n == items_count as int,
            f == fields_count as int,
        decreases items_count - i,
    {
        proof {
            assert((i + 1) * fields_count <= items_count * fields_count) by (nonlinear_arith)
                requires
                    1 <= i + 1 <= items_count,
                    fields_count >= 0,
            ;
            assert((i + 1) * fields_count == i * fields_count + fields_count) by (nonlinear_arith);
        }
        s.append(", ");
        let group = create_placeholder(&mut start_num, fields_count)?;
        s.append(group.as_str());
        proof {
            reveal_strlit(", ");
            let gs = groups_from(1 + i * f, f, n - i);
            assert(gs[0] =~= idx_seq(1 + i * f, f));
            assert(gs.drop_first() =~= groups_from(1 + (i + 1) * f, f, n - (i + 1))) by {
                assert forall|j: int| 0 <= j < n - i - 1 implies gs.drop_first()[j]
                    == groups_from(1 + (i + 1) * f, f, n - (i + 1))[j] by {
                    assert((j + 1) * f == f + j * f) by (nonlinear_arith);
                    assert((i + 1) * f == i * f + f) by (nonlinear_arith);
                    assert(idx_seq(1 + i * f + (j + 1) * f, f) =~= idx_seq(
                        1 + (i + 1) * f + j * f,
                        f,
                    ));
                }
            }
            assert((i + 1) * f == i * f + f) by (nonlinear_arith);
            assert(s@ + render_groups_tail(groups_from(1 + (i + 1) * f, f, n - (i + 1)))
                =~= spec_placeholders(n, f));
        }
        i = i + 1;
    }
    proof {
        assert(groups_from(1 + i * f, f, 0) =~= Seq::<Seq<int>>::empty());
        assert(s@ =~= spec_placeholders(n, f));
    }
    Ok(s)
}

/// LAW (placeholder generation): the statement text for `n >= 1` rows of
/// `f >= 1` fields is the rendering of exactly `n` groups of `f`
/// positional markers each, whose indices, read across the groups in
/// order, are `1, 2, ..., n*f`: strictly increasing, with no repetition.
pub proof fn lemma_placeholder_markers(n: int, f: int)
    requires
        n >= 1,
        f >= 1,
    ensures
        spec_placeholders(n, f) == render_groups(marker_groups(n, f)),
        marker_groups(n, f).len() == n,
        forall|i: int| 0 <= i < n ==> (#[trigger] marker_groups(n, f)[i]).len() == f,
        marker_groups(n, f).flatten() =~= idx_seq(1, n * f),
        forall|k1: int, k2: int|
            0 <= k1 < k2 < n * f ==> marker_groups(n, f).flatten()[k1] < marker_groups(
                n,
                f,
            ).flatten()[k2],
{
    lemma_groups_from_flatten(1, f, n);
}

/// The indices of `count` consecutive groups of `f` markers, flattened,
/// are the `count * f` consecutive integers from `start`.
proof fn lemma_groups_from_flatten(start: int, f: int, count: int)
    requires
        f >= 0,
        count >= 0,
    ensures
        groups_from(start, f, count).flatten() =~= idx_seq(start, count * f),
    decreases count,
{
    if count == 0 {
        assert(groups_from(start, f, 0) =~= Seq::<Seq<int>>::empty());
        assert(Seq::<Seq<int>>::empty().flatten() =~= idx_seq(start, 0));
    } else {
        let gs = groups_from(start, f, count);
        assert(gs.drop_first() =~= groups_from(start + f, f, count - 1)) by {
            assert forall|i: int| 0 <= i < count - 1 implies gs.drop_first()[i] == groups_from(
                start + f,
                f,
                count - 1,
            )[i] by {
                assert((i + 1) * f == f + i * f) by (nonlinear_arith);
                assert(idx_seq(start + (i + 1) * f, f) =~= idx_seq(start + f + i * f, f));
            }
        }
        lemma_groups_from_flatten(start + f, f, count - 1);
        assert((count - 1) * f + f == count * f) by (nonlinear_arith);
        assert(count * f >= f) by (nonlinear_arith)
            requires
                count >= 1,
                f >= 0,
        ;
        assert(gs.flatten() =~= idx_seq(start, count * f));
    }
}

} // verus!
