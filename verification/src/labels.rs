//! Tab labels.

use crate::text::{append, chars_of, text_of};
use vstd::prelude::*;

verus! {

/// The longest tab label before it is elided.
///
/// Long enough for `architecture.md` and most agent-artifact names, short
/// enough that six open documents still fit across a laptop window.
pub const TAB_LABEL_MAX: usize = 22;

/// The fewest characters of a stem that an elided label keeps.
pub const TAB_STEM_MIN: usize = 3;

/// The position of the last `needle` in `text`, or -1.
pub open spec fn last_position(text: Seq<char>, needle: char) -> int
    decreases text.len(),
{
    if text.len() == 0 {
        -1
    } else if text.last() == needle {
        text.len() - 1
    } else {
        last_position(text.drop_last(), needle)
    }
}

/// Where the extension of `name` begins; a leading dot is a hidden file, not an
/// extension.
pub open spec fn extension_start(name: Seq<char>) -> int {
    let dot = last_position(name, '.');
    if dot > 0 {
        dot
    } else {
        name.len() as int
    }
}

/// The extension of `name`, with its dot.
pub open spec fn extension(name: Seq<char>) -> Seq<char> {
    name.skip(extension_start(name))
}

/// The part of `name` before its extension.
pub open spec fn stem(name: Seq<char>) -> Seq<char> {
    name.take(extension_start(name))
}

/// How much of the stem an elided label keeps beside an extension of this
/// length.
pub open spec fn kept_stem(extension_len: int) -> int {
    if TAB_LABEL_MAX - (extension_len + 1) > TAB_STEM_MIN {
        TAB_LABEL_MAX - (extension_len + 1)
    } else {
        TAB_STEM_MIN as int
    }
}

/// The label of a tab that shows `name`: the name, or as much of its stem as
/// fits, an ellipsis, and its extension.
pub open spec fn tab_label(name: Seq<char>) -> Seq<char> {
    if name.len() <= TAB_LABEL_MAX {
        name
    } else {
        let keep = kept_stem(extension(name).len() as int);
        let head = if keep < stem(name).len() {
            stem(name).take(keep)
        } else {
            stem(name)
        };
        head.push('…') + extension(name)
    }
}

/// The last position is where the needle is, and it is not after that.
pub proof fn lemma_last_position(text: Seq<char>, needle: char)
    ensures
        -1 <= last_position(text, needle) < text.len(),
        last_position(text, needle) >= 0 ==> text[last_position(text, needle)] == needle,
        forall|i: int| last_position(text, needle) < i < text.len() ==> text[i] != needle,
    decreases text.len(),
{
    if text.len() > 0 && text.last() != needle {
        lemma_last_position(text.drop_last(), needle);
        assert forall|i: int|
            last_position(text, needle) < i < text.len() implies text[i] != needle by {
            if i < text.len() - 1 {
                assert(text.drop_last()[i] == text[i]);
            }
        }
    }
}

/// Shorten `name` to [`TAB_LABEL_MAX`], keeping the extension.
///
/// The extension is what distinguishes `notes.md` from `notes.mdx`, so eliding
/// from the end would remove exactly the part worth keeping. This elides the
/// stem instead.
pub fn elide_tab_label(name: &str) -> (label: String)
    ensures
        label@ == tab_label(name@),
{
    let chars = chars_of(name);
    if chars.len() <= TAB_LABEL_MAX {
        let mut label: String = String::new();
        append(&mut label, name);
        assert(label@ =~= name@);
        return label;
    }
    let mut at: usize = chars.len();
    assert(chars@.take(at as int) =~= chars@);
    while at > 0 && chars[at - 1] != '.'
        invariant
            at <= chars.len(),
            last_position(chars@, '.') == last_position(chars@.take(at as int), '.'),
        decreases at,
    {
        assert(chars@.take(at as int).drop_last() =~= chars@.take(at - 1));
        assert(chars@.take(at as int).last() == chars@[at - 1]);
        at = at - 1;
    }
    let start: usize = if at > 1 {
        at - 1
    } else {
        chars.len()
    };
    proof {
        if at > 0 {
            assert(chars@.take(at as int).last() == '.');
        }
        assert(start == extension_start(name@));
    }
    let extension_len: usize = chars.len() - start;
    let room: usize = if extension_len + 1 < TAB_LABEL_MAX {
        TAB_LABEL_MAX - (extension_len + 1)
    } else {
        0
    };
    let keep: usize = if room > TAB_STEM_MIN {
        room
    } else {
        TAB_STEM_MIN
    };
    let head: usize = if keep < start {
        keep
    } else {
        start
    };
    let mut label: Vec<char> = Vec::new();
    let mut i: usize = 0;
    while i < head
        invariant
            i <= head <= chars.len(),
            label@ == chars@.take(i as int),
        decreases head - i,
    {
        label.push(chars[i]);
        assert(label@ =~= chars@.take(i + 1));
        i = i + 1;
    }
    label.push('…');
    let ghost shortened = label@;
    let mut j: usize = start;
    while j < chars.len()
        invariant
            start <= j <= chars.len(),
            label@ == shortened + chars@.subrange(start as int, j as int),
        decreases chars.len() - j,
    {
        label.push(chars[j]);
        assert(label@ =~= shortened + chars@.subrange(start as int, j + 1));
        j = j + 1;
    }
    proof {
        assert(chars@.subrange(start as int, chars.len() as int) =~= extension(name@));
        assert(chars@.take(head as int) =~= (if keep < stem(name@).len() {
            stem(name@).take(keep as int)
        } else {
            stem(name@)
        }));
        assert(label@ =~= tab_label(name@));
    }
    text_of(&label)
}

/// A label ends in the name's extension and begins as the name does; a name
/// that fits is its own label. A label is never longer than the limit unless
/// the extension alone leaves no room for the shortest stem.
pub proof fn law_label_keeps_the_extension(name: Seq<char>)
    ensures
        name.len() <= TAB_LABEL_MAX ==> tab_label(name) == name,
        extension(name).len() + 1 + TAB_STEM_MIN <= TAB_LABEL_MAX ==> tab_label(name).len()
            <= TAB_LABEL_MAX,
        name.len() > TAB_LABEL_MAX ==> {
            &&& tab_label(name).contains('…')
            &&& tab_label(name)[0] == name[0]
        },
        tab_label(name).len() >= extension(name).len(),
        tab_label(name).skip(tab_label(name).len() - extension(name).len()) == extension(name),
{
    lemma_last_position(name, '.');
    let label = tab_label(name);
    let ext = extension(name);
    assert(label.skip(label.len() - ext.len()) =~= ext);
    if name.len() > TAB_LABEL_MAX {
        let head = label.len() - ext.len() - 1;
        assert(label[head] == '…');
        assert(extension_start(name) >= 1);
    }
}

/// A name is its stem and its extension. An extension begins at the last dot,
/// which is not the first character of the name, and holds no other.
pub proof fn law_an_extension_begins_at_the_last_dot(name: Seq<char>)
    ensures
        stem(name) + extension(name) == name,
        extension(name).len() > 0 ==> {
            &&& extension(name)[0] == '.'
            &&& stem(name).len() > 0
            &&& forall|i: int| 0 < i < extension(name).len() ==> extension(name)[i] != '.'
        },
        extension(name).len() == 0 ==> forall|i: int| 0 < i < name.len() ==> name[i] != '.',
{
    lemma_last_position(name, '.');
    assert(stem(name) + extension(name) =~= name);
}

/// A label that is elided begins as the name does, ends in the name's extension,
/// and has nothing but an ellipsis between. It takes all the room there is, as
/// long as the extension leaves any.
pub proof fn law_an_elided_label_uses_its_room(name: Seq<char>)
    requires
        name.len() > TAB_LABEL_MAX,
    ensures
        ({
            let label = tab_label(name);
            let ext = extension(name);
            let head = label.len() - ext.len() - 1;
            &&& 0 < head <= stem(name).len()
            &&& label.take(head) == name.take(head)
            &&& label[head] == '…'
            &&& label.skip(head + 1) == ext
            &&& ext.len() + 1 + TAB_STEM_MIN <= TAB_LABEL_MAX ==> label.len() == TAB_LABEL_MAX
            &&& ext.len() + 1 + TAB_STEM_MIN > TAB_LABEL_MAX && stem(name).len() >= TAB_STEM_MIN
                ==> head == TAB_STEM_MIN
        }),
{
    lemma_last_position(name, '.');
    let label = tab_label(name);
    let ext = extension(name);
    let head = label.len() - ext.len() - 1;
    assert(label.take(head) =~= name.take(head));
    assert(label.skip(head + 1) =~= ext);
}

} // verus!
