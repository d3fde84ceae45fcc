//! Texts as sequences of characters.

use vstd::prelude::*;
use vstd::string::*;

verus! {

/// `String::push` appends one character at the end.
pub assume_specification[ String::push ](text: &mut String, character: char)
    ensures
        final(text)@ == old(text)@.push(character),
;

/// The characters of `text`, in order.
pub fn characters(text: &str) -> (result: Vec<char>)
    ensures
        result@ == text@,
{
    let mut result: Vec<char> = Vec::new();
    for character in iter: text.chars()
        invariant
            iter.seq() == text@,
            result@ == text@.take(iter.index() as int),
    {
        assert(text@.take(iter.index() + 1) =~= text@.take(iter.index() as int).push(character));
        result.push(character);
    }
    assert(text@.take(text@.len() as int) =~= text@);
    result
}

/// The text made of `characters[from..to]`.
pub fn text_between(characters: &Vec<char>, from: usize, to: usize) -> (result: String)
    requires
        from <= to <= characters@.len(),
    ensures
        result@ == characters@.subrange(from as int, to as int),
{
    let mut result = String::new();
    let mut index: usize = from;
    while index < to
        invariant
            from <= index <= to <= characters@.len(),
            result@ == characters@.subrange(from as int, index as int),
        decreases to - index,
    {
        result.push(characters[index]);
        assert(characters@.subrange(from as int, index + 1) =~= characters@.subrange(
            from as int,
            index as int,
        ).push(characters@[index as int]));
        index += 1;
    }
    result
}

/// The pieces of a text between the occurrences of a separator. There is always
/// one piece more than there are separators.
pub open spec fn pieces(text: Seq<char>, separator: char) -> Seq<Seq<char>>
    decreases text.len(),
{
    if text.len() == 0 {
        seq![Seq::<char>::empty()]
    } else {
        let before = pieces(text.drop_last(), separator);
        if text.last() == separator {
            before.push(Seq::empty())
        } else {
            before.drop_last().push(before.last().push(text.last()))
        }
    }
}

/// Pieces put together with a separator between each two.
pub open spec fn assembled(list: Seq<Seq<char>>, separator: char) -> Seq<char>
    decreases list.len(),
{
    if list.len() == 0 {
        Seq::empty()
    } else if list.len() == 1 {
        list[0]
    } else {
        assembled(list.drop_last(), separator).push(separator) + list.last()
    }
}

/// Cutting a text into pieces loses nothing, and no piece holds a separator.
pub proof fn pieces_assemble_to_the_text(text: Seq<char>, separator: char)
    ensures
        pieces(text, separator).len() >= 1,
        assembled(pieces(text, separator), separator) == text,
        forall|place: int|
            0 <= place < pieces(text, separator).len() ==> !(#[trigger] pieces(
                text,
                separator,
            )[place]).contains(separator),
    decreases text.len(),
{
    reveal_with_fuel(assembled, 2);
    let all = pieces(text, separator);
    if text.len() > 0 {
        let front = text.drop_last();
        let before = pieces(front, separator);
        pieces_assemble_to_the_text(front, separator);
        if text.last() == separator {
            assert(all.drop_last() =~= before);
            assert(assembled(all, separator) =~= front.push(separator));
            assert forall|place: int| 0 <= place < all.len() implies !(
            #[trigger] all[place]).contains(separator) by {
                if place < before.len() {
                    assert(all[place] == before[place]);
                }
            }
        } else {
            assert(all.drop_last() =~= before.drop_last());
            assert(assembled(all, separator) =~= assembled(before, separator).push(text.last()));
            assert(front.push(text.last()) =~= text);
            assert forall|place: int| 0 <= place < all.len() implies !(
            #[trigger] all[place]).contains(separator) by {
                if place < before.len() - 1 {
                    assert(all[place] == before[place]);
                } else {
                    assert(!before.last().contains(separator));
                    let piece = before.last().push(text.last());
                    assert(all[place] == piece);
                    if piece.contains(separator) {
                        let found = piece.index_of(separator);
                        if found < before.last().len() {
                            assert(before.last()[found] == separator);
                        }
                    }
                }
            }
        }
    } else {
        assert(all[0].len() == 0);
    }
}

/// The texts that a list of strings holds.
pub open spec fn texts(list: Seq<String>) -> Seq<Seq<char>> {
    list.map_values(|text: String| text@)
}

/// The pieces of `text` between the occurrences of `separator`.
pub fn split_text(text: &str, separator: char) -> (result: Vec<String>)
    ensures
        texts(result@) == pieces(text@, separator),
{
    let characters = characters(text);
    let mut result: Vec<String> = Vec::new();
    let mut start: usize = 0;
    let mut index: usize = 0;
    proof {
        assert(text@.take(0) =~= Seq::<char>::empty());
        assert(characters@.subrange(0, 0) =~= Seq::<char>::empty());
    }
    while index < characters.len()
        invariant
            characters@ == text@,
            start <= index <= characters@.len(),
            texts(result@).push(characters@.subrange(start as int, index as int)) =~= pieces(
                text@.take(index as int),
                separator,
            ),
        decreases characters@.len() - index,
    {
        proof {
            assert(text@.take(index + 1).drop_last() =~= text@.take(index as int));
        }
        if characters[index] == separator {
            let ghost before = result@;
            let piece = text_between(&characters, start, index);
            result.push(piece);
            assert(texts(result@) =~= texts(before).push(piece@));
            start = index + 1;
            assert(characters@.subrange(start as int, index + 1) =~= Seq::<char>::empty());
        } else {
            proof {
                let piece = characters@.subrange(start as int, index as int);
                let longer = characters@.subrange(start as int, index + 1);
                assert(longer =~= piece.push(characters@[index as int]));
                let before = texts(result@).push(piece);
                assert(before.drop_last() =~= texts(result@));
            }
        }
        index += 1;
    }
    let ghost before = result@;
    let piece = text_between(&characters, start, index);
    result.push(piece);
    proof {
        assert(text@.take(text@.len() as int) =~= text@);
        assert(texts(result@) =~= texts(before).push(piece@));
    }
    result
}

/// The strings of a list put together with `separator` between each two.
pub fn assemble(list: &Vec<String>, separator: char) -> (result: String)
    ensures
        result@ == assembled(texts(list@), separator),
{
    let mut result = String::new();
    let mut index: usize = 0;
    while index < list.len()
        invariant
            index <= list@.len(),
            result@ == assembled(texts(list@).take(index as int), separator),
        decreases list@.len() - index,
    {
        proof {
            reveal_with_fuel(assembled, 2);
            assert(texts(list@).take(index + 1).drop_last() =~= texts(list@).take(index as int));
        }
        if index > 0 {
            result.push(separator);
        }
        result.append(list[index].as_str());
        proof {
            assert(Seq::<char>::empty() + list@[index as int]@ =~= list@[index as int]@);
        }
        index += 1;
    }
    proof {
        assert(texts(list@).take(list@.len() as int) =~= texts(list@));
    }
    result
}

/// The place of the first occurrence of a character, or the length of the text
/// if it does not occur.
pub open spec fn first_index(text: Seq<char>, wanted: char) -> int
    decreases text.len(),
{
    if text.len() == 0 {
        0
    } else if text[0] == wanted {
        0
    } else {
        1 + first_index(text.skip(1), wanted)
    }
}

/// The place of the last occurrence of a character, if it occurs.
pub open spec fn last_index(text: Seq<char>, wanted: char) -> Option<int>
    decreases text.len(),
{
    if text.len() == 0 {
        None
    } else if text.last() == wanted {
        Some(text.len() - 1)
    } else {
        last_index(text.drop_last(), wanted)
    }
}

/// [`last_index`] finds an occurrence behind which there is no other.
pub proof fn last_index_is_last(text: Seq<char>, wanted: char)
    ensures
        match last_index(text, wanted) {
            Some(place) => {
                &&& 0 <= place < text.len()
                &&& text[place] == wanted
                &&& forall|later: int|
                    place < later < text.len() ==> #[trigger] text[later] != wanted
            },
            None => !text.contains(wanted),
        },
    decreases text.len(),
{
    if text.len() > 0 && text.last() != wanted {
        let front = text.drop_last();
        last_index_is_last(front, wanted);
        assert forall|place: int| 0 <= place < front.len() implies front[place]
            == #[trigger] text[place] by {}
        if front.contains(wanted) {
        } else if text.contains(wanted) {
            let found = text.index_of(wanted);
            assert(front[found] == wanted);
        }
    }
}

/// The place of the first `wanted` in `characters`, or their number.
pub fn find_first(characters: &Vec<char>, wanted: char) -> (place: usize)
    ensures
        place == first_index(characters@, wanted),
        place <= characters@.len(),
{
    let mut place: usize = 0;
    assert(characters@.skip(0) =~= characters@);
    while place < characters.len()
        invariant
            place <= characters@.len(),
            first_index(characters@, wanted) == place + first_index(
                characters@.skip(place as int),
                wanted,
            ),
        decreases characters@.len() - place,
    {
        proof {
            assert(characters@.skip(place as int).skip(1) =~= characters@.skip(place + 1));
        }
        if characters[place] == wanted {
            return place;
        }
        place += 1;
    }
    place
}

/// The place of the last `wanted` in `characters`, if there is one.
pub fn find_last(characters: &Vec<char>, wanted: char) -> (place: Option<usize>)
    ensures
        match place {
            Some(place) => last_index(characters@, wanted) == Some(place as int) && place
                < characters@.len(),
            None => last_index(characters@, wanted) is None,
        },
{
    let mut end: usize = characters.len();
    assert(characters@.take(end as int) =~= characters@);
    while end > 0
        invariant
            end <= characters@.len(),
            last_index(characters@, wanted) == last_index(characters@.take(end as int), wanted),
        decreases end,
    {
        proof {
            assert(characters@.take(end as int).drop_last() =~= characters@.take(end - 1));
        }
        if characters[end - 1] == wanted {
            return Some(end - 1);
        }
        end -= 1;
    }
    None
}

/// A character with an ASCII letter made lower case.
pub open spec fn ascii_lower(character: char) -> char {
    if 'A' <= character <= 'Z' {
        ((character as u8) + 32) as char
    } else {
        character
    }
}

/// A character with an ASCII letter made upper case.
pub open spec fn ascii_upper(character: char) -> char {
    if 'a' <= character <= 'z' {
        ((character as u8) - 32) as char
    } else {
        character
    }
}

/// A text with its ASCII letters made lower case.
pub open spec fn lowered(text: Seq<char>) -> Seq<char> {
    text.map_values(|character: char| ascii_lower(character))
}

/// A text with its ASCII letters made upper case.
pub open spec fn raised(text: Seq<char>) -> Seq<char> {
    text.map_values(|character: char| ascii_upper(character))
}

/// `text` with its ASCII letters made lower case.
pub fn lower_text(text: &str) -> (result: String)
    ensures
        result@ == lowered(text@),
{
    let characters = characters(text);
    let mut result = String::new();
    let mut index: usize = 0;
    while index < characters.len()
        invariant
            characters@ == text@,
            index <= characters@.len(),
            result@ =~= lowered(text@).take(index as int),
        decreases characters@.len() - index,
    {
        let character = characters[index];
        if 'A' <= character && character <= 'Z' {
            result.push(((character as u8) + 32) as char);
        } else {
            result.push(character);
        }
        index += 1;
    }
    assert(lowered(text@).take(index as int) =~= lowered(text@));
    result
}

/// `text` with its ASCII letters made upper case.
pub fn raise_text(text: &str) -> (result: String)
    ensures
        result@ == raised(text@),
{
    let characters = characters(text);
    let mut result = String::new();
    let mut index: usize = 0;
    while index < characters.len()
        invariant
            characters@ == text@,
            index <= characters@.len(),
            result@ =~= raised(text@).take(index as int),
        decreases characters@.len() - index,
    {
        let character = characters[index];
        if 'a' <= character && character <= 'z' {
            result.push(((character as u8) - 32) as char);
        } else {
            result.push(character);
        }
        index += 1;
    }
    assert(raised(text@).take(index as int) =~= raised(text@));
    result
}

/// The decimal digit of a number below ten.
pub open spec fn digit(value: nat) -> char {
    ('0' as nat + value) as char
}

/// A number in decimal notation.
pub open spec fn decimal(value: nat) -> Seq<char>
    decreases value,
{
    if value < 10 {
        seq![digit(value)]
    } else {
        decimal(value / 10).push(digit(value % 10))
    }
}

/// Two numbers with the same decimal notation are the same number, and the
/// notation is made of digits.
pub proof fn decimal_is_unique(left: nat, right: nat)
    ensures
        decimal(left) == decimal(right) ==> left == right,
        decimal(left).len() >= 1,
        forall|place: int|
            0 <= place < decimal(left).len() ==> '0' <= #[trigger] decimal(left)[place] <= '9',
    decreases left,
{
    if left >= 10 {
        decimal_is_unique(left / 10, right / 10);
        assert(decimal(left).drop_last() =~= decimal(left / 10));
        assert forall|place: int| 0 <= place < decimal(left).len() implies '0'
            <= #[trigger] decimal(left)[place] <= '9' by {
            if place < decimal(left / 10).len() {
                assert(decimal(left)[place] == decimal(left / 10)[place]);
            }
        }
    }
    if right >= 10 {
        assert(decimal(right).drop_last() =~= decimal(right / 10));
        decimal_is_not_empty(right / 10);
    }
    if decimal(left) == decimal(right) {
        assert(decimal(left).last() == decimal(right).last());
        if left >= 10 && right >= 10 {
            assert(left / 10 == right / 10);
            assert(digit(left % 10) == digit(right % 10));
        }
    }
}

proof fn decimal_is_not_empty(value: nat)
    ensures
        decimal(value).len() >= 1,
    decreases value,
{
    if value >= 10 {
        decimal_is_not_empty(value / 10);
    }
}

/// `value` in decimal notation.
pub fn decimal_text(value: u64) -> (result: String)
    ensures
        result@ == decimal(value as nat),
    decreases value,
{
    let mut result = if value < 10 {
        String::new()
    } else {
        decimal_text(value / 10)
    };
    let last = (value % 10) as u8;
    result.push((48u8 + last) as char);
    assert(value < 10 ==> result@ =~= seq![digit(value as nat)]);
    result
}

/// Whether two texts hold the same characters.
pub fn same_text(left: &str, right: &str) -> (same: bool)
    ensures
        same == (left@ == right@),
{
    left.to_owned() == right.to_owned()
}

/// Whether `text` begins with `prefix`.
pub fn begins_with(text: &str, prefix: &str) -> (result: bool)
    ensures
        result == prefix@.is_prefix_of(text@),
{
    let all = characters(text);
    let front = characters(prefix);
    if front.len() > all.len() {
        return false;
    }
    let mut index: usize = 0;
    while index < front.len()
        invariant
            index <= front@.len() <= all@.len(),
            all@ == text@,
            front@ == prefix@,
            forall|place: int| 0 <= place < index ==> all@[place] == front@[place],
        decreases front@.len() - index,
    {
        if all[index] != front[index] {
            assert(prefix@[index as int] != text@.subrange(0, prefix@.len() as int)[index as int]);
            return false;
        }
        index += 1;
    }
    assert(prefix@ =~= text@.subrange(0, prefix@.len() as int));
    true
}

/// Two texts joined end to end.
pub fn joined(left: &str, right: &str) -> (result: String)
    ensures
        result@ == left@ + right@,
{
    left.to_owned().concat(right)
}

/// [`first_index`] finds an occurrence before which there is no other, or the
/// end of the text.
pub proof fn first_index_is_first(text: Seq<char>, wanted: char)
    ensures
        0 <= first_index(text, wanted) <= text.len(),
        first_index(text, wanted) < text.len() ==> text[first_index(text, wanted)] == wanted,
        forall|place: int| 0 <= place < first_index(text, wanted) ==> text[place] != wanted,
    decreases text.len(),
{
    if text.len() > 0 && text[0] != wanted {
        let rest = text.skip(1);
        first_index_is_first(rest, wanted);
        assert forall|place: int| 0 <= place < first_index(text, wanted) implies text[place]
            != wanted by {
            if place > 0 {
                assert(rest[place - 1] == text[place]);
            }
        }
        if first_index(text, wanted) < text.len() {
            assert(rest[first_index(rest, wanted)] == text[first_index(text, wanted)]);
        }
    }
}

/// Changing the case of a text moves its ASCII letters between the two halves of
/// the alphabet and leaves every other character alone.
pub proof fn case_changes_letters_alone(character: char)
    ensures
        'A' <= character <= 'Z' ==> ascii_lower(character) as int == character as int + 32,
        !('A' <= character <= 'Z') ==> ascii_lower(character) == character,
        'a' <= character <= 'z' ==> ascii_upper(character) as int == character as int - 32,
        !('a' <= character <= 'z') ==> ascii_upper(character) == character,
        ascii_lower(ascii_upper(character)) == ascii_lower(character),
        ascii_upper(ascii_lower(character)) == ascii_upper(character),
        !('A' <= ascii_lower(character) <= 'Z'),
{
}

/// Texts that differ only in the case of their letters are the same in lower
/// case, and only those.
pub proof fn lower_case_joins_the_cases(one: Seq<char>, other: Seq<char>)
    ensures
        lowered(one).len() == one.len(),
        lowered(one) == lowered(other) <==> raised(one) == raised(other),
        lowered(lowered(one)) == lowered(one),
        lowered(raised(one)) == lowered(one),
{
    assert forall|place: int| 0 <= place < one.len() implies lowered(raised(one))[place]
        == lowered(one)[place] && lowered(lowered(one))[place] == lowered(one)[place] by {
        case_changes_letters_alone(one[place]);
        case_changes_letters_alone(ascii_lower(one[place]));
    }
    assert(lowered(raised(one)) =~= lowered(one));
    assert(lowered(lowered(one)) =~= lowered(one));
    if lowered(one) == lowered(other) {
        assert forall|place: int| 0 <= place < one.len() implies raised(one)[place]
            == raised(other)[place] by {
            case_changes_letters_alone(one[place]);
            case_changes_letters_alone(other[place]);
            assert(lowered(one)[place] == ascii_lower(one[place]));
            assert(lowered(other)[place] == ascii_lower(other[place]));
        }
        assert(lowered(other).len() == other.len());
        assert(raised(one) =~= raised(other));
    }
    if raised(one) == raised(other) {
        assert(raised(one).len() == one.len() && raised(other).len() == other.len());
        assert forall|place: int| 0 <= place < one.len() implies lowered(one)[place]
            == lowered(other)[place] by {
            case_changes_letters_alone(one[place]);
            case_changes_letters_alone(other[place]);
            assert(raised(one)[place] == ascii_upper(one[place]));
            assert(raised(other)[place] == ascii_upper(other[place]));
        }
        assert(lowered(one) =~= lowered(other));
    }
}

/// The decimal notation of a number goes on with a digit behind that of its
/// tenth part.
pub proof fn decimal_goes_on_with_a_digit(value: nat, last: nat)
    requires
        last < 10,
    ensures
        value > 0 ==> decimal(value * 10 + last) == decimal(value).push(('0' as nat + last) as char),
        decimal(last) == seq![('0' as nat + last) as char],
{
    if value > 0 {
        let all = value * 10 + last;
        assert(all / 10 == value);
        assert(all % 10 == last);
    }
}

/// A text without the separator is one piece, and putting a separator between
/// two texts puts their pieces one behind the other.
pub proof fn pieces_lie_between_separators(one: Seq<char>, other: Seq<char>, separator: char)
    ensures
        !one.contains(separator) ==> pieces(one, separator) == seq![one],
        pieces(one.push(separator) + other, separator) == pieces(one, separator) + pieces(
            other,
            separator,
        ),
    decreases one.len() + other.len(),
{
    pieces_assemble_to_the_text(one, separator);
    if !one.contains(separator) {
        if one.len() > 0 {
            let front = one.drop_last();
            assert forall|place: int| 0 <= place < front.len() implies front[place] != separator by {
                assert(one[place] != separator);
            }
            pieces_lie_between_separators(front, Seq::empty(), separator);
            assert(one[one.len() - 1] == one.last());
            assert(one.contains(one.last()));
            assert(front.push(one.last()) =~= one);
            assert(pieces(one, separator) =~= seq![one]);
        } else {
            assert(one =~= Seq::empty());
        }
    }
    let joined = one.push(separator) + other;
    if other.len() == 0 {
        assert(joined =~= one.push(separator));
        assert(joined.drop_last() =~= one);
        assert(pieces(joined, separator) =~= pieces(one, separator) + pieces(other, separator));
    } else {
        let front = other.drop_last();
        pieces_lie_between_separators(one, front, separator);
        pieces_assemble_to_the_text(front, separator);
        assert(joined.drop_last() =~= one.push(separator) + front);
        assert(joined.last() == other.last());
        assert(pieces(joined, separator) =~= pieces(one, separator) + pieces(other, separator));
    }
}

} // verus!
