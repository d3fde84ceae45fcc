//! Stable sorting, and the order of texts.

use crate::text::characters;
use vstd::prelude::*;

verus! {

/// A sorted list with one more item, behind every item that it does not come
/// before.
pub open spec fn inserted<T>(sorted: Seq<T>, item: T, before: spec_fn(T, T) -> bool) -> Seq<T>
    decreases sorted.len(),
{
    if sorted.len() > 0 && before(item, sorted.last()) {
        inserted(sorted.drop_last(), item, before).push(sorted.last())
    } else {
        sorted.push(item)
    }
}

/// The items of a list in order, those that are equal in the order in which
/// they stood.
pub open spec fn stably_sorted<T>(list: Seq<T>, before: spec_fn(T, T) -> bool) -> Seq<T>
    decreases list.len(),
{
    if list.len() == 0 {
        Seq::empty()
    } else {
        inserted(stably_sorted(list.drop_last(), before), list.last(), before)
    }
}

/// No item stands behind one that it comes before.
pub open spec fn in_order<T>(list: Seq<T>, before: spec_fn(T, T) -> bool) -> bool {
    forall|left: int, right: int|
        0 <= left < right < list.len() ==> !before(#[trigger] list[right], #[trigger] list[left])
}

/// A strict order in which items that neither comes before the other of are
/// equal.
pub open spec fn strict_weak_order<T>(before: spec_fn(T, T) -> bool) -> bool {
    &&& forall|item: T| !#[trigger] before(item, item)
    &&& forall|a: T, b: T, c: T| #[trigger]
        before(a, b) && !#[trigger] before(c, b) ==> before(a, c)
    &&& forall|a: T, b: T, c: T| #[trigger]
        before(a, b) && #[trigger] before(b, c) ==> before(a, c)
}

/// Whether two items are equal as far as an order goes.
pub open spec fn level<T>(before: spec_fn(T, T) -> bool, one: T, other: T) -> bool {
    !before(one, other) && !before(other, one)
}

/// The items of a list that are equal to one item as far as an order goes.
pub open spec fn equals_of<T>(list: Seq<T>, before: spec_fn(T, T) -> bool, like: T) -> Seq<T> {
    list.filter(|other: T| level(before, other, like))
}

proof fn inserted_contents<T>(sorted: Seq<T>, item: T, before: spec_fn(T, T) -> bool)
    ensures
        inserted(sorted, item, before).len() == sorted.len() + 1,
        inserted(sorted, item, before).to_multiset() == sorted.to_multiset().insert(item),
    decreases sorted.len(),
{
    broadcast use vstd::seq_lib::group_to_multiset_ensures;

    if sorted.len() > 0 && before(item, sorted.last()) {
        inserted_contents(sorted.drop_last(), item, before);
        assert(sorted.drop_last().push(sorted.last()) =~= sorted);
        assert(sorted.to_multiset() =~= sorted.drop_last().to_multiset().insert(sorted.last()));
        assert(inserted(sorted, item, before).to_multiset() =~= sorted.to_multiset().insert(item));
    }
}

proof fn inserted_members<T>(sorted: Seq<T>, item: T, before: spec_fn(T, T) -> bool)
    ensures
        forall|place: int|
            0 <= place < inserted(sorted, item, before).len() ==> #[trigger] inserted(
                sorted,
                item,
                before,
            )[place] == item || sorted.contains(inserted(sorted, item, before)[place]),
    decreases sorted.len(),
{
    if sorted.len() > 0 && before(item, sorted.last()) {
        inserted_members(sorted.drop_last(), item, before);
        let shorter = inserted(sorted.drop_last(), item, before);
        assert forall|place: int|
            0 <= place < inserted(sorted, item, before).len() implies #[trigger] inserted(
            sorted,
            item,
            before,
        )[place] == item || sorted.contains(inserted(sorted, item, before)[place]) by {
            if place < shorter.len() {
                assert(inserted(sorted, item, before)[place] == shorter[place]);
                if shorter[place] != item {
                    let other = choose|other: int|
                        0 <= other < sorted.drop_last().len() && sorted.drop_last()[other]
                            == shorter[place];
                    assert(sorted[other] == shorter[place]);
                }
            } else {
                assert(sorted[sorted.len() - 1] == sorted.last());
            }
        }
    } else {
        assert forall|place: int|
            0 <= place < inserted(sorted, item, before).len() implies #[trigger] inserted(
            sorted,
            item,
            before,
        )[place] == item || sorted.contains(inserted(sorted, item, before)[place]) by {
            if place < sorted.len() {
                assert(sorted[place] == inserted(sorted, item, before)[place]);
            }
        }
    }
}

proof fn inserted_stays_in_order<T>(sorted: Seq<T>, item: T, before: spec_fn(T, T) -> bool)
    requires
        strict_weak_order(before),
        in_order(sorted, before),
    ensures
        in_order(inserted(sorted, item, before), before),
    decreases sorted.len(),
{
    let result = inserted(sorted, item, before);
    if sorted.len() > 0 && before(item, sorted.last()) {
        let front = sorted.drop_last();
        assert forall|left: int, right: int| 0 <= left < right < front.len() implies !before(
            #[trigger] front[right],
            #[trigger] front[left],
        ) by {
            assert(front[right] == sorted[right] && front[left] == sorted[left]);
        }
        inserted_stays_in_order(front, item, before);
        inserted_members(front, item, before);
        inserted_contents(front, item, before);
        let shorter = inserted(front, item, before);
        assert forall|left: int, right: int| 0 <= left < right < result.len() implies !before(
            #[trigger] result[right],
            #[trigger] result[left],
        ) by {
            assert(result[left] == shorter[left]);
            if right < shorter.len() {
                assert(result[right] == shorter[right]);
            } else {
                if shorter[left] == item {
                    assert(before(item, sorted.last()));
                } else {
                    let other = choose|other: int|
                        0 <= other < front.len() && front[other] == shorter[left];
                    assert(sorted[other] == shorter[left]);
                    assert(sorted[sorted.len() - 1] == sorted.last());
                }
            }
        }
    } else {
        assert forall|left: int, right: int| 0 <= left < right < result.len() implies !before(
            #[trigger] result[right],
            #[trigger] result[left],
        ) by {
            if right < sorted.len() {
                assert(result[left] == sorted[left] && result[right] == sorted[right]);
            } else {
                assert(result[left] == sorted[left]);
                assert(sorted[sorted.len() - 1] == sorted.last());
                if before(item, sorted[left]) {
                    assert(!before(sorted.last(), sorted[left]) || left == sorted.len() - 1);
                    assert(before(item, sorted.last()));
                }
            }
        }
    }
}

proof fn equals_of_one_more<T>(list: Seq<T>, item: T, before: spec_fn(T, T) -> bool, like: T)
    ensures
        equals_of(list.push(item), before, like) == (if level(before, item, like) {
            equals_of(list, before, like).push(item)
        } else {
            equals_of(list, before, like)
        }),
{
    reveal(Seq::filter);
    assert(list.push(item).drop_last() =~= list);
}

proof fn inserted_is_stable<T>(sorted: Seq<T>, item: T, before: spec_fn(T, T) -> bool, like: T)
    requires
        strict_weak_order(before),
        in_order(sorted, before),
    ensures
        equals_of(inserted(sorted, item, before), before, like) == equals_of(
            sorted.push(item),
            before,
            like,
        ),
    decreases sorted.len(),
{
    if sorted.len() > 0 && before(item, sorted.last()) {
        let front = sorted.drop_last();
        assert forall|left: int, right: int| 0 <= left < right < front.len() implies !before(
            #[trigger] front[right],
            #[trigger] front[left],
        ) by {
            assert(front[right] == sorted[right] && front[left] == sorted[left]);
        }
        inserted_is_stable(front, item, before, like);
        let shorter = inserted(front, item, before);
        equals_of_one_more(shorter, sorted.last(), before, like);
        equals_of_one_more(front, item, before, like);
        equals_of_one_more(front, sorted.last(), before, like);
        equals_of_one_more(sorted, item, before, like);
        assert(front.push(sorted.last()) =~= sorted);
        assert(!(level(before, item, like) && level(before, sorted.last(), like)));
    }
}

/// Sorting keeps the items, puts them in order, and leaves items that are
/// equal in the order in which they stood.
pub proof fn sorting_is_stable<T>(list: Seq<T>, before: spec_fn(T, T) -> bool)
    requires
        strict_weak_order(before),
    ensures
        stably_sorted(list, before).to_multiset() == list.to_multiset(),
        stably_sorted(list, before).len() == list.len(),
        in_order(stably_sorted(list, before), before),
        forall|like: T| #[trigger]
            equals_of(stably_sorted(list, before), before, like) == equals_of(list, before, like),
    decreases list.len(),
{
    broadcast use vstd::seq_lib::group_to_multiset_ensures;

    if list.len() > 0 {
        let front = list.drop_last();
        let sorted = stably_sorted(front, before);
        sorting_is_stable(front, before);
        inserted_contents(sorted, list.last(), before);
        inserted_stays_in_order(sorted, list.last(), before);
        assert(front.push(list.last()) =~= list);
        assert(list.to_multiset() =~= front.to_multiset().insert(list.last()));
        assert forall|like: T| #[trigger]
            equals_of(stably_sorted(list, before), before, like) == equals_of(
            list,
            before,
            like,
        ) by {
            inserted_is_stable(sorted, list.last(), before, like);
            equals_of_one_more(sorted, list.last(), before, like);
            equals_of_one_more(front, list.last(), before, like);
            assert(equals_of(sorted, before, like) == equals_of(front, before, like));
        }
    } else {
        assert(stably_sorted(list, before) =~= list);
    }
}

/// Where an order of items follows an order of their values, the values of the
/// sorted items are the sorted values.
pub(crate) proof fn sorting_commutes_with_values<T, U>(
    list: Seq<T>,
    before: spec_fn(T, T) -> bool,
    value: spec_fn(T) -> U,
    value_before: spec_fn(U, U) -> bool,
)
    requires
        forall|one: T, other: T| #[trigger]
            before(one, other) == value_before(value(one), value(other)),
    ensures
        stably_sorted(list, before).map_values(value) == stably_sorted(
            list.map_values(value),
            value_before,
        ),
    decreases list.len(),
{
    if list.len() > 0 {
        let front = list.drop_last();
        sorting_commutes_with_values(front, before, value, value_before);
        inserting_commutes_with_values(
            stably_sorted(front, before),
            list.last(),
            before,
            value,
            value_before,
        );
        assert(list.map_values(value).drop_last() =~= front.map_values(value));
    } else {
        assert(stably_sorted(list, before).map_values(value) =~= stably_sorted(
            list.map_values(value),
            value_before,
        ));
    }
}

proof fn inserting_commutes_with_values<T, U>(
    sorted: Seq<T>,
    item: T,
    before: spec_fn(T, T) -> bool,
    value: spec_fn(T) -> U,
    value_before: spec_fn(U, U) -> bool,
)
    requires
        forall|one: T, other: T| #[trigger]
            before(one, other) == value_before(value(one), value(other)),
    ensures
        inserted(sorted, item, before).map_values(value) == inserted(
            sorted.map_values(value),
            value(item),
            value_before,
        ),
    decreases sorted.len(),
{
    if sorted.len() > 0 && before(item, sorted.last()) {
        inserting_commutes_with_values(sorted.drop_last(), item, before, value, value_before);
        assert(sorted.map_values(value).drop_last() =~= sorted.drop_last().map_values(value));
    }
    assert(inserted(sorted, item, before).map_values(value) =~= inserted(
        sorted.map_values(value),
        value(item),
        value_before,
    ));
}

proof fn inserted_at_its_place<T>(
    sorted: Seq<T>,
    item: T,
    before: spec_fn(T, T) -> bool,
    place: int,
)
    requires
        0 <= place <= sorted.len(),
        forall|other: int| place <= other < sorted.len() ==> before(item, #[trigger] sorted[other]),
        place > 0 ==> !before(item, sorted[place - 1]),
    ensures
        inserted(sorted, item, before) == sorted.insert(place, item),
    decreases sorted.len(),
{
    if place < sorted.len() {
        let front = sorted.drop_last();
        assert forall|other: int| place <= other < front.len() implies before(
            item,
            #[trigger] front[other],
        ) by {
            assert(front[other] == sorted[other]);
        }
        assert(sorted[sorted.len() - 1] == sorted.last());
        if place > 0 {
            assert(front[place - 1] == sorted[place - 1]);
        }
        inserted_at_its_place(front, item, before, place);
        assert(inserted(sorted, item, before) =~= sorted.insert(place, item));
    } else {
        assert(inserted(sorted, item, before) =~= sorted.insert(place, item));
    }
}

/// Whether `comes_before` decides the order `before`.
pub open spec fn decides<T, F: Fn(&T, &T) -> bool>(
    comes_before: F,
    before: spec_fn(T, T) -> bool,
) -> bool {
    forall|one: T, other: T, result: bool| #[trigger]
        comes_before.ensures((&one, &other), result) ==> result == before(one, other)
}

/// Puts a list in order, leaving equal items in the order in which they stood.
pub fn sort_stably<T, F: Fn(&T, &T) -> bool>(list: &mut Vec<T>, comes_before: F)
    requires
        forall|one: T, other: T| #[trigger] comes_before.requires((&one, &other)),
    ensures
        forall|before: spec_fn(T, T) -> bool| #[trigger]
            decides(comes_before, before) ==> final(list)@ == stably_sorted(old(list)@, before),
{
    let ghost given = list@;
    let count = list.len();
    let mut done: usize = 0;
    assert(given.take(0) =~= Seq::empty());
    while done < count
        invariant
            done <= count,
            list@.len() == count,
            given.len() == count,
            forall|one: T, other: T| #[trigger] comes_before.requires((&one, &other)),
            list@.skip(done as int) == given.skip(done as int),
            forall|before: spec_fn(T, T) -> bool| #[trigger]
                decides(comes_before, before) ==> list@.take(done as int) == stably_sorted(
                    given.take(done as int),
                    before,
                ),
        decreases count - done,
    {
        let ghost sorted = list@.take(done as int);
        let ghost start = list@;
        proof {
            assert(list@.skip(done as int)[0] == given.skip(done as int)[0]);
            assert(given.take(done + 1).drop_last() =~= given.take(done as int));
        }
        let item = list.remove(done);
        let ghost held = list@;
        let mut place: usize = done;
        while place > 0 && comes_before(&item, &list[place - 1])
            invariant
                place <= done < count,
                list@ == held,
                held.len() == count - 1,
                forall|one: T, other: T| #[trigger] comes_before.requires((&one, &other)),
                forall|before: spec_fn(T, T) -> bool, other: int| #[trigger]
                    decides(comes_before, before) && place <= other < done ==> before(
                        item,
                        #[trigger] held[other],
                    ),
            ensures
                place > 0 ==> comes_before.ensures((&item, &held[place - 1]), false),
            decreases place,
        {
            place -= 1;
        }
        list.insert(place, item);
        proof {
            assert(held.take(done as int) =~= sorted);
            assert forall|before: spec_fn(T, T) -> bool| #[trigger]
                decides(comes_before, before) implies list@.take(done + 1) == stably_sorted(
                given.take(done + 1),
                before,
            ) by {
                assert forall|other: int| place <= other < sorted.len() implies before(
                    item,
                    #[trigger] sorted[other],
                ) by {
                    assert(sorted[other] == held[other]);
                }
                if place > 0 {
                    assert(sorted[place - 1] == held[place - 1]);
                }
                inserted_at_its_place(sorted, item, before, place as int);
                assert(list@.take(done + 1) =~= sorted.insert(place as int, item));
            }
            assert(list@.skip(done + 1) =~= start.skip(done as int).skip(1));
            assert(given.skip(done + 1) =~= given.skip(done as int).skip(1));
        }
        done += 1;
    }
    proof {
        assert(list@.take(count as int) =~= list@);
        assert(given.take(count as int) =~= given);
    }
}

/// Whether one text comes before another: at the first place where they
/// differ its character is the smaller one, or it ends there.
pub open spec fn text_before(one: Seq<char>, other: Seq<char>) -> bool
    decreases one.len(),
{
    if other.len() == 0 {
        false
    } else if one.len() == 0 {
        true
    } else if one[0] != other[0] {
        one[0] < other[0]
    } else {
        text_before(one.skip(1), other.skip(1))
    }
}

proof fn text_before_is_irreflexive(text: Seq<char>)
    ensures
        !text_before(text, text),
    decreases text.len(),
{
    if text.len() > 0 {
        text_before_is_irreflexive(text.skip(1));
    }
}

proof fn text_before_is_transitive(a: Seq<char>, b: Seq<char>, c: Seq<char>)
    ensures
        text_before(a, b) && text_before(b, c) ==> text_before(a, c),
    decreases a.len(),
{
    if a.len() > 0 && b.len() > 0 && c.len() > 0 {
        text_before_is_transitive(a.skip(1), b.skip(1), c.skip(1));
    }
}

proof fn text_before_is_total(one: Seq<char>, other: Seq<char>)
    ensures
        text_before(one, other) || text_before(other, one) || one == other,
    decreases one.len(),
{
    if one.len() > 0 && other.len() > 0 {
        text_before_is_total(one.skip(1), other.skip(1));
        if one[0] == other[0] && one.skip(1) == other.skip(1) {
            assert(one =~= seq![one[0]] + one.skip(1));
            assert(other =~= seq![other[0]] + other.skip(1));
        }
    } else if one.len() == 0 && other.len() == 0 {
        assert(one =~= other);
    }
}

/// Texts are strictly ordered: of two different texts exactly one comes before
/// the other.
pub proof fn texts_are_ordered()
    ensures
        strict_weak_order(|one: Seq<char>, other: Seq<char>| text_before(one, other)),
        forall|one: Seq<char>, other: Seq<char>|
            one != other ==> (#[trigger] text_before(one, other) <==> !text_before(other, one)),
{
    let before = |one: Seq<char>, other: Seq<char>| text_before(one, other);
    assert forall|text: Seq<char>| !#[trigger] before(text, text) by {
        text_before_is_irreflexive(text);
    }
    assert forall|a: Seq<char>, b: Seq<char>, c: Seq<char>| #[trigger]
        before(a, b) && !#[trigger] before(c, b) implies before(a, c) by {
        text_before_is_total(b, c);
        text_before_is_transitive(a, b, c);
    }
    assert forall|a: Seq<char>, b: Seq<char>, c: Seq<char>| #[trigger]
        before(a, b) && #[trigger] before(b, c) implies before(a, c) by {
        text_before_is_transitive(a, b, c);
    }
    assert forall|one: Seq<char>, other: Seq<char>| one != other implies (#[trigger] text_before(
        one,
        other,
    ) <==> !text_before(other, one)) by {
        text_before_is_total(one, other);
        text_before_is_transitive(one, other, one);
        text_before_is_irreflexive(one);
    }
}

/// Whether one text comes before another.
pub fn comes_before(one: &str, other: &str) -> (result: bool)
    ensures
        result == text_before(one@, other@),
{
    let left = characters(one);
    let right = characters(other);
    let mut index: usize = 0;
    assert(left@.skip(0) =~= left@);
    assert(right@.skip(0) =~= right@);
    while index < left.len() && index < right.len() && left[index] == right[index]
        invariant
            index <= left@.len(),
            index <= right@.len(),
            text_before(left@, right@) == text_before(
                left@.skip(index as int),
                right@.skip(index as int),
            ),
        decreases left@.len() - index,
    {
        proof {
            assert(left@.skip(index as int).skip(1) =~= left@.skip(index + 1));
            assert(right@.skip(index as int).skip(1) =~= right@.skip(index + 1));
        }
        index += 1;
    }
    if index == right.len() {
        false
    } else if index == left.len() {
        true
    } else {
        left[index] < right[index]
    }
}

/// Texts come in the order of the first character in which they differ, and a
/// text comes before every longer one that begins with it.
pub proof fn the_first_difference_decides(
    front: Seq<char>,
    one: char,
    other: char,
    one_rest: Seq<char>,
    other_rest: Seq<char>,
)
    ensures
        one != other ==> (text_before(front.push(one) + one_rest, front.push(other) + other_rest)
            <==> (one as int) < other as int),
        text_before(front, front.push(one) + one_rest),
        !text_before(front.push(one) + one_rest, front),
        !text_before(front, front),
    decreases front.len(),
{
    let left = front.push(one) + one_rest;
    let right = front.push(other) + other_rest;
    if front.len() > 0 {
        let rest = front.skip(1);
        the_first_difference_decides(rest, one, other, one_rest, other_rest);
        assert(left.skip(1) =~= rest.push(one) + one_rest);
        assert(right.skip(1) =~= rest.push(other) + other_rest);
        assert(left[0] == front[0] && right[0] == front[0]);
    } else {
        assert(left[0] == one && right[0] == other);
    }
}

} // verus!
