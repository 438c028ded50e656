//! Text as a sequence of characters, and the parts that a separator cuts it into.

use vstd::prelude::*;

verus! {

/// `String::push` appends the one character to the text.
pub assume_specification[ String::push ](text: &mut String, c: char)
    ensures
        final(text)@ == old(text)@.push(c),
;

/// The texts of a list of strings, in order.
pub open spec fn texts(items: Seq<String>) -> Seq<Seq<char>> {
    Seq::new(items.len(), |i: int| items[i]@)
}

/// The parts into which the separator cuts `text`. A text without the
/// separator is one part, and so is the empty text; each separator ends one
/// part and begins the next, which may be empty.
pub open spec fn parts(text: Seq<char>, separator: char) -> Seq<Seq<char>>
    decreases text.len(),
{
    if text.len() == 0 {
        seq![Seq::<char>::empty()]
    } else {
        let before = parts(text.drop_last(), separator);
        if text.last() == separator {
            before.push(Seq::<char>::empty())
        } else {
            before.drop_last().push(before.last().push(text.last()))
        }
    }
}

/// The parts written one after another with the separator between them.
pub open spec fn joined(items: Seq<Seq<char>>, separator: char) -> Seq<char>
    decreases items.len(),
{
    if items.len() == 0 {
        Seq::<char>::empty()
    } else if items.len() == 1 {
        items[0]
    } else {
        joined(items.drop_last(), separator).push(separator) + items.last()
    }
}

/// Cutting never yields nothing, no part holds the separator, and joining
/// the parts gives the text back.
pub proof fn lemma_parts_rejoin(text: Seq<char>, separator: char)
    ensures
        parts(text, separator).len() >= 1,
        forall|i: int|
            0 <= i < parts(text, separator).len() ==> !(#[trigger] parts(text, separator)[i]).contains(
                separator,
            ),
        joined(parts(text, separator), separator) == text,
    decreases text.len(),
{
    if text.len() > 0 {
        let shorter = text.drop_last();
        let before = parts(shorter, separator);
        lemma_parts_rejoin(shorter, separator);
        let all = parts(text, separator);
        if text.last() == separator {
            assert(all.drop_last() == before);
            assert(joined(all, separator) == joined(before, separator).push(separator)
                + Seq::<char>::empty());
            assert(joined(all, separator) == shorter.push(separator));
            assert(shorter.push(text.last()) == text);
        } else {
            let grown = before.last().push(text.last());
            assert(all == before.drop_last().push(grown));
            assert(all.last() == grown);
            assert(all.drop_last() == before.drop_last());
            assert forall|i: int| 0 <= i < all.len() implies !(#[trigger] all[i]).contains(
                separator,
            ) by {
                if i < all.len() - 1 {
                    assert(all[i] == before[i]);
                } else {
                    assert(!before[i].contains(separator));
                    assert forall|k: int| 0 <= k < grown.len() implies grown[k] != separator by {
                        if k < grown.len() - 1 {
                            assert(before[i].contains(grown[k]));
                        }
                    }
                }
            }
            if before.len() == 1 {
                assert(joined(before, separator) == before[0]);
                assert(joined(all, separator) == grown);
            } else {
                assert(joined(before, separator) == joined(before.drop_last(), separator).push(
                    separator,
                ) + before.last());
                assert(joined(all, separator) == joined(before.drop_last(), separator).push(
                    separator,
                ) + grown);
                assert(joined(all, separator) == joined(before, separator).push(text.last()));
            }
            assert(shorter.push(text.last()) == text);
        }
    }
}

/// A text without the separator is its own one part.
pub proof fn lemma_parts_of_plain(text: Seq<char>, separator: char)
    requires
        !text.contains(separator),
    ensures
        parts(text, separator) == seq![text],
    decreases text.len(),
{
    if text.len() > 0 {
        let shorter = text.drop_last();
        assert(!shorter.contains(separator)) by {
            if shorter.contains(separator) {
                let k = choose|k: int| 0 <= k < shorter.len() && shorter[k] == separator;
                assert(text[k] == separator);
            }
        }
        assert(text[text.len() - 1] != separator);
        lemma_parts_of_plain(shorter, separator);
        assert(shorter.push(text.last()) == text);
        let one = seq![shorter];
        assert(one.drop_last().push(one.last().push(text.last())) == seq![text]);
    } else {
        assert(text == Seq::<char>::empty());
    }
}

/// What follows the last separator of a text is the last part of the text.
pub proof fn lemma_parts_after_separator(head: Seq<char>, tail: Seq<char>, separator: char)
    requires
        !tail.contains(separator),
    ensures
        parts(head.push(separator) + tail, separator) == parts(head, separator).push(tail),
    decreases tail.len(),
{
    let text = head.push(separator) + tail;
    if tail.len() == 0 {
        assert(text == head.push(separator));
        assert(text.drop_last() == head);
        assert(tail == Seq::<char>::empty());
    } else {
        let shorter = tail.drop_last();
        assert(!shorter.contains(separator)) by {
            if shorter.contains(separator) {
                let k = choose|k: int| 0 <= k < shorter.len() && shorter[k] == separator;
                assert(tail[k] == separator);
            }
        }
        assert(tail[tail.len() - 1] != separator);
        lemma_parts_after_separator(head, shorter, separator);
        assert(text.drop_last() == head.push(separator) + shorter);
        assert(text.last() == tail.last());
        let before = parts(head, separator).push(shorter);
        assert(before.drop_last() == parts(head, separator));
        assert(shorter.push(tail.last()) == tail);
    }
}

/// Cutting undoes joining: the parts of what some separator-free parts
/// were joined into are those parts.
pub proof fn lemma_parts_of_joined(items: Seq<Seq<char>>, separator: char)
    requires
        items.len() >= 1,
        forall|i: int| 0 <= i < items.len() ==> !(#[trigger] items[i]).contains(separator),
    ensures
        parts(joined(items, separator), separator) == items,
    decreases items.len(),
{
    if items.len() == 1 {
        lemma_parts_of_plain(items[0], separator);
        assert(seq![items[0]] == items);
    } else {
        let init = items.drop_last();
        assert forall|i: int| 0 <= i < init.len() implies !(#[trigger] init[i]).contains(
            separator,
        ) by {
            assert(init[i] == items[i]);
        }
        lemma_parts_of_joined(init, separator);
        lemma_parts_after_separator(joined(init, separator), items.last(), separator);
        assert(init.push(items.last()) == items);
    }
}

/// Joining one more part appends the separator and the part.
pub proof fn lemma_joined_push(items: Seq<Seq<char>>, item: Seq<char>, separator: char)
    requires
        items.len() >= 1,
    ensures
        joined(items.push(item), separator) == joined(items, separator).push(separator) + item,
{
    assert(items.push(item).drop_last() == items);
}

/// Joining further parts onto some parts only extends the text: where
/// there are further parts, the separator comes next.
pub proof fn lemma_joined_extends(base: Seq<Seq<char>>, more: Seq<Seq<char>>, separator: char)
    requires
        base.len() >= 1,
    ensures
        joined(base, separator).is_prefix_of(joined(base + more, separator)),
        more.len() == 0 ==> joined(base + more, separator) == joined(base, separator),
        more.len() > 0 ==> joined(base, separator).push(separator).is_prefix_of(
            joined(base + more, separator),
        ),
    decreases more.len(),
{
    if more.len() == 0 {
        assert(base + more == base);
    } else {
        let init = more.drop_last();
        lemma_joined_extends(base, init, separator);
        assert(base + more == (base + init).push(more.last()));
        lemma_joined_push(base + init, more.last(), separator);
    }
}

/// Cuts `text` at every occurrence of the separator.
pub fn split(text: &str, separator: char) -> (items: Vec<String>)
    ensures
        texts(items@) == parts(text@, separator),
{
    let mut items: Vec<String> = Vec::new();
    let mut current = String::new();
    for c in it: text.chars()
        invariant
            it.seq() == text@,
            texts(items@).push(current@) == parts(text@.take(it.index()), separator),
    {
        let ghost done = texts(items@);
        let ghost open = current@;
        proof {
            let seen = text@.take(it.index() + 1);
            assert(seen.drop_last() == text@.take(it.index()));
            assert(seen.last() == c);
            assert(done.push(open).drop_last() == done);
        }
        if c == separator {
            items.push(current);
            current = String::new();
            assert(texts(items@) == done.push(open));
        } else {
            current.push(c);
            assert(texts(items@) == done);
        }
    }
    proof {
        assert(text@.take(text@.len() as int) == text@);
    }
    items.push(current);
    items
}

/// The characters of `text`, in order.
pub fn chars_of(text: &str) -> (chars: Vec<char>)
    ensures
        chars@ == text@,
{
    let mut chars: Vec<char> = Vec::new();
    for c in it: text.chars()
        invariant
            it.seq() == text@,
            chars@ == text@.take(it.index()),
    {
        chars.push(c);
        assert(text@.take(it.index() + 1) == text@.take(it.index()).push(c));
    }
    proof {
        assert(text@.take(text@.len() as int) == text@);
    }
    chars
}

/// The text that `chars` holds from position `from` on.
pub fn text_from(chars: &Vec<char>, from: usize) -> (text: String)
    requires
        from <= chars.len(),
    ensures
        text@ == chars@.skip(from as int),
{
    let mut text = String::new();
    let mut i: usize = from;
    while i < chars.len()
        invariant
            from <= i <= chars.len(),
            text@ == chars@.subrange(from as int, i as int),
        decreases chars.len() - i,
    {
        text.push(chars[i]);
        i += 1;
    }
    assert(chars@.subrange(from as int, chars.len() as int) == chars@.skip(from as int));
    text
}

} // verus!
