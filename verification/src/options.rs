//! The choices that the sequence table offers for a slot: which slot plays
//! next, and which loop the slot holds.

use crate::playback::grid::placeholder;
use crate::playback::grid::SlotId;
use crate::text::chars_of;
use vstd::prelude::*;
use vstd::string::StringExecFns;

verus! {

/// A choice of next slot: none, or one of the slots.
#[derive(Debug, Clone, Copy, PartialEq, Eq, Structural)]
pub struct NextSlotOption(pub Option<SlotId>);

impl NextSlotOption {
    /// The choices in the order shown: none first, then A to Z.
    pub open spec fn all() -> Seq<NextSlotOption> {
        Seq::new(
            27,
            |i: int|
                if i == 0 {
                    NextSlotOption(None)
                } else {
                    NextSlotOption(Some(SlotId::at(i - 1)))
                },
        )
    }

    /// The text shown for the choice: `--` for none, else the slot's letter.
    pub open spec fn text(self) -> Seq<char> {
        match self.0 {
            Some(id) => seq![id.0],
            None => placeholder(),
        }
    }

    /// All choices: none first, then A to Z.
    pub fn all_options() -> (options: Vec<NextSlotOption>)
        ensures
            options@ == NextSlotOption::all(),
    {
        let mut options: Vec<NextSlotOption> = Vec::new();
        options.push(NextSlotOption(None));
        let mut i: usize = 0;
        while i < 26
            invariant
                i <= 26,
                options@.len() == i + 1,
                forall|k: int| 0 <= k <= i ==> options@[k] == NextSlotOption::all()[k],
            decreases 26 - i,
        {
            options.push(NextSlotOption(SlotId::from_index(i)));
            i += 1;
        }
        assert(options@ =~= NextSlotOption::all());
        options
    }

    /// The text shown for the choice.
    pub fn to_text(&self) -> (text: String)
        requires
            self.0 matches Some(id) ==> id.is_valid(),
        ensures
            text@ == self.text(),
    {
        match self.0 {
            Some(id) => id.to_text(),
            None => {
                proof {
                    reveal_strlit("--");
                }
                assert("--"@ =~= placeholder());
                String::from_str("--")
            },
        }
    }
}

/// The most laps that the table lets a slot play.
pub const MAX_REPEAT_COUNT: u32 = 999;

/// The repeat count that the table takes for an entry of `count`: no less
/// than one and no more than [`MAX_REPEAT_COUNT`].
pub fn clamp_repeat_count(count: u32) -> (laps: u32)
    ensures
        laps == (if count < 1 {
            1
        } else if count > 999 {
            999
        } else {
            count
        }),
{
    if count < 1 {
        1
    } else if count > MAX_REPEAT_COUNT {
        MAX_REPEAT_COUNT
    } else {
        count
    }
}

/// A choice of loop: none, or one of the loops on offer, by its place in
/// the list of them.
#[derive(Debug)]
pub struct LoopOption {
    pub index: Option<usize>,
    /// The name shown: that of the loop, cut short if it is long.
    pub name: String,
}

/// The mathematical content of a [`LoopOption`].
pub struct LoopOptionModel {
    pub index: Option<usize>,
    pub name: Seq<char>,
}

impl View for LoopOption {
    type V = LoopOptionModel;

    open spec fn view(&self) -> LoopOptionModel {
        LoopOptionModel { index: self.index, name: self.name@ }
    }
}

impl Clone for LoopOption {
    fn clone(&self) -> (out: Self)
        ensures
            out@ == self@,
    {
        LoopOption { index: self.index, name: self.name.clone() }
    }
}

/// Three dots.
pub open spec fn ellipsis() -> Seq<char> {
    seq!['.', '.', '.']
}

/// The name shown for a loop called `name`: the name itself, unless its
/// UTF-8 form is longer than 35 bytes; then the first 32 bytes of it,
/// followed by three dots.
pub open spec fn shown_name(name: Seq<char>) -> Seq<char> {
    let bytes = vstd::utf8::encode_utf8(name);
    if bytes.len() > 35 {
        vstd::utf8::decode_utf8(bytes.subrange(0, 32)) + ellipsis()
    } else {
        name
    }
}

/// Whether the name can be shown: a long name must not have a character
/// that straddles its 32nd byte.
pub open spec fn can_show(name: Seq<char>) -> bool {
    let bytes = vstd::utf8::encode_utf8(name);
    bytes.len() > 35 ==> vstd::utf8::is_char_boundary(bytes, 32)
}

/// Decides [`can_show`].
pub fn check_can_show(name: &str) -> (can: bool)
    ensures
        can == can_show(name@),
{
    let bytes: &[u8] = name.as_bytes();
    bytes.len() <= 35 || name.is_char_boundary(32)
}

/// Builds [`shown_name`].
pub fn shorten(name: &str) -> (shown: String)
    requires
        can_show(name@),
    ensures
        shown@ == shown_name(name@),
{
    let bytes: &[u8] = name.as_bytes();
    if bytes.len() > 35 {
        let parts = name.split_at(32);
        proof {
            reveal_strlit("...");
            vstd::utf8::encode_utf8_decode_utf8(parts.0@);
            assert(vstd::utf8::encode_utf8(parts.0@) == vstd::utf8::encode_utf8(name@).subrange(0, 32));
        }
        assert("..."@ =~= ellipsis());
        String::from_str(parts.0).concat("...")
    } else {
        String::from_str(name)
    }
}

/// `name` without the dots at its end, taken off three at a time.
pub open spec fn without_dots(name: Seq<char>) -> Seq<char>
    decreases name.len(),
{
    if name.len() >= 3 && name[name.len() - 1] == '.' && name[name.len() - 2] == '.' && name[name.len()
        - 3] == '.' {
        without_dots(name.take(name.len() - 3))
    } else {
        name
    }
}

/// Whether `text` begins with `prefix`.
pub open spec fn begins_with(text: Seq<char>, prefix: Seq<char>) -> bool {
    prefix.len() <= text.len() && text.take(prefix.len() as int) == prefix
}

/// Whether the choice shown as `option_name` stands for the loop called
/// `current`: the names are equal, or `current` begins with the shown name
/// less the dots at its end.
pub open spec fn stands_for(option_name: Seq<char>, current: Seq<char>) -> bool {
    option_name == current || begins_with(current, without_dots(option_name))
}

/// The place of the first choice that stands for `current`, or the number
/// of choices if none does.
pub open spec fn first_standing_for(options: Seq<LoopOptionModel>, current: Seq<char>) -> int
    decreases options.len(),
{
    if options.len() == 0 {
        0
    } else if stands_for(options[0].name, current) {
        0
    } else {
        1 + first_standing_for(options.drop_first(), current)
    }
}

/// The choice to show as selected for a slot whose loop is called
/// `current`: for `--` the first choice, else the first that stands for the
/// name; `None` where there is no such choice.
pub open spec fn selected(options: Seq<LoopOptionModel>, current: Seq<char>) -> Option<
    LoopOptionModel,
> {
    let place = if current == placeholder() {
        0
    } else {
        first_standing_for(options, current)
    };
    if place < options.len() {
        Some(options[place])
    } else {
        None
    }
}

/// The models of a list of choices.
pub open spec fn options_view(options: Seq<LoopOption>) -> Seq<LoopOptionModel> {
    Seq::new(options.len(), |i: int| options[i]@)
}

/// Whether two texts are the same.
fn same_chars(a: &Vec<char>, b: &Vec<char>) -> (same: bool)
    ensures
        same == (a@ == b@),
{
    if a.len() != b.len() {
        return false;
    }
    let mut i: usize = 0;
    while i < a.len()
        invariant
            a.len() == b.len(),
            i <= a.len(),
            a@.take(i as int) == b@.take(i as int),
        decreases a.len() - i,
    {
        if a[i] != b[i] {
            return false;
        }
        assert(a@.take(i + 1) =~= a@.take(i as int).push(a@[i as int]));
        assert(b@.take(i + 1) =~= b@.take(i as int).push(b@[i as int]));
        i += 1;
    }
    assert(a@.take(a.len() as int) =~= a@);
    assert(b@.take(b.len() as int) =~= b@);
    true
}

/// The length of `name` without the dots at its end.
fn length_without_dots(name: &Vec<char>) -> (length: usize)
    ensures
        length <= name.len(),
        without_dots(name@) == name@.take(length as int),
{
    let mut length: usize = name.len();
    assert(name@.take(length as int) =~= name@);
    while length >= 3 && name[length - 1] == '.' && name[length - 2] == '.' && name[length - 3]
        == '.'
        invariant
            length <= name.len(),
            without_dots(name@) == without_dots(name@.take(length as int)),
        decreases length,
    {
        proof {
            let head = name@.take(length as int);
            assert(head.len() == length);
            assert(head[length - 1] == name@[length - 1]);
            assert(head[length - 2] == name@[length - 2]);
            assert(head[length - 3] == name@[length - 3]);
            assert(head.take(length - 3) =~= name@.take(length - 3));
            assert(without_dots(head) == without_dots(head.take(length - 3)));
        }
        length -= 3;
    }
    proof {
        let head = name@.take(length as int);
        assert(head.len() == length);
        if length >= 3 {
            assert(head[length - 1] == name@[length - 1]);
            assert(head[length - 2] == name@[length - 2]);
            assert(head[length - 3] == name@[length - 3]);
        }
        assert(without_dots(head) == head);
    }
    length
}

/// Whether `text` begins with the first `length` characters of `prefix`.
fn begins_with_head(text: &Vec<char>, prefix: &Vec<char>, length: usize) -> (begins: bool)
    requires
        length <= prefix.len(),
    ensures
        begins == begins_with(text@, prefix@.take(length as int)),
{
    if length > text.len() {
        return false;
    }
    let ghost head = prefix@.take(length as int);
    let mut i: usize = 0;
    while i < length
        invariant
            length <= prefix.len(),
            length <= text.len(),
            head == prefix@.take(length as int),
            i <= length,
            text@.take(i as int) == head.take(i as int),
        decreases length - i,
    {
        if text[i] != prefix[i] {
            assert(text@.take(length as int)[i as int] != head[i as int]);
            return false;
        }
        assert(text@.take(i + 1) =~= text@.take(i as int).push(text@[i as int]));
        assert(head.take(i + 1) =~= head.take(i as int).push(head[i as int]));
        i += 1;
    }
    assert(head.take(length as int) =~= head);
    true
}

impl LoopOption {
    /// The choices for the loops on offer: none first, shown as `--`, then
    /// one for each loop in the order given, under its shown name.
    pub fn from_available<P>(available: &[(String, P)]) -> (options: Vec<LoopOption>)
        requires
            forall|i: int| 0 <= i < available@.len() ==> can_show(#[trigger] available@[i].0@),
        ensures
            options@.len() == available@.len() + 1,
            options@[0]@ == (LoopOptionModel { index: None, name: placeholder() }),
            forall|i: int|
                0 <= i < available@.len() ==> (#[trigger] options@[i + 1])@ == (LoopOptionModel {
                    index: Some(i as usize),
                    name: shown_name(available@[i].0@),
                }),
    {
        proof {
            reveal_strlit("--");
        }
        assert("--"@ =~= placeholder());
        let mut options: Vec<LoopOption> = Vec::new();
        options.push(LoopOption { index: None, name: String::from_str("--") });
        let mut i: usize = 0;
        while i < available.len()
            invariant
                i <= available@.len(),
                forall|k: int| 0 <= k < available@.len() ==> can_show(#[trigger] available@[k].0@),
                options@.len() == i + 1,
                options@[0]@ == (LoopOptionModel { index: None, name: placeholder() }),
                forall|k: int|
                    0 <= k < i ==> (#[trigger] options@[k + 1])@ == (LoopOptionModel {
                        index: Some(k as usize),
                        name: shown_name(available@[k].0@),
                    }),
            decreases available.len() - i,
        {
            let name: String = shorten(available[i].0.as_str());
            options.push(LoopOption { index: Some(i), name });
            i += 1;
        }
        options
    }

    /// The choice to show as selected for a slot whose loop is called
    /// `current_name`.
    pub fn find_selected(options: &[LoopOption], current_name: &str) -> (found: Option<LoopOption>)
        ensures
            match found {
                Some(option) => selected(options_view(options@), current_name@) == Some(option@),
                None => selected(options_view(options@), current_name@).is_none(),
            },
    {
        let ghost models = options_view(options@);
        let current: Vec<char> = chars_of(current_name);
        proof {
            reveal_strlit("--");
        }
        assert("--"@ =~= placeholder());
        let dashes: Vec<char> = chars_of("--");
        if same_chars(&current, &dashes) {
            if options.len() > 0 {
                return Some(options[0].clone());
            } else {
                return None;
            }
        }
        let mut i: usize = 0;
        assert(models.skip(0) =~= models);
        while i < options.len()
            invariant
                i <= options@.len(),
                models == options_view(options@),
                current@ == current_name@,
                current@ != placeholder(),
                first_standing_for(models, current@) == i + first_standing_for(
                    models.skip(i as int),
                    current@,
                ),
            decreases options.len() - i,
        {
            let name: Vec<char> = chars_of(options[i].name.as_str());
            let length: usize = length_without_dots(&name);
            proof {
                assert(models.skip(i as int)[0] == models[i as int]);
                assert(models[i as int].name == name@);
                assert(models.skip(i as int).drop_first() =~= models.skip(i + 1));
            }
            if same_chars(&name, &current) || begins_with_head(&current, &name, length) {
                return Some(options[i].clone());
            }
            i += 1;
        }
        assert(models.skip(i as int).len() == 0);
        None
    }
}

} // verus!
