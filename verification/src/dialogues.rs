//! Dialogue playback: named dialogues, each a queue of sections, each
//! section a speaking character with a queue of lines. Asking for the next
//! line walks the queues in order, skipping exhausted sections.

use vstd::prelude::*;
use std::collections::VecDeque;

verus! {

/// Who speaks a dialogue section.
#[derive(PartialEq, Eq, Structural, Debug, Clone, Copy)]
pub enum DialogueCharacter {
    Driver,
    Passenger,
}

impl DialogueCharacter {
    /// The speaker's display name.
    pub fn name(&self) -> (r: &'static str)
        ensures
            r@ == match *self {
                DialogueCharacter::Driver => "Driver"@,
                DialogueCharacter::Passenger => "Passenger"@,
            },
    {
        match self {
            DialogueCharacter::Driver => "Driver",
            DialogueCharacter::Passenger => "Passenger",
        }
    }
}

/// One speaker's run of lines, consumed front to back.
pub struct DialogueSection {
    pub character: DialogueCharacter,
    pub list: VecDeque<String>,
}

impl DialogueSection {
    /// The section as its speaker paired with its remaining lines.
    pub open spec fn spec_pair(self) -> (DialogueCharacter, Seq<Seq<char>>) {
        (self.character, self.list.deep_view())
    }

    /// Pops the section's next line, if one is left.
    pub fn next_dialogue(&mut self) -> (r: Option<String>)
        ensures
            final(self).character == old(self).character,
            match r {
                Some(t) => {
                    &&& old(self).list@.len() > 0
                    &&& t == old(self).list@[0]
                    &&& final(self).list@ == old(self).list@.skip(1)
                },
                None => {
                    &&& old(self).list@.len() == 0
                    &&& final(self).list@ == old(self).list@
                },
            },
    {
        let text = self.list.pop_front();
        proof {
            if old(self).list@.len() > 0 {
                assert(self.list@ =~= old(self).list@.skip(1));
            }
        }
        text
    }
}

/// One line ready to show: its speaker and its text.
pub struct DialogueContent {
    pub character: DialogueCharacter,
    pub text: String,
}

impl DialogueContent {
    fn new(character: DialogueCharacter, text: String) -> (r: DialogueContent)
        ensures
            r.character == character,
            r.text == text,
    {
        DialogueContent { text, character }
    }
}

/// A named dialogue: a queue of sections still to play, and the section
/// playing now.
pub struct Dialogue {
    pub name: String,
    pub list: VecDeque<DialogueSection>,
    current: Option<DialogueSection>,
}

/// What is left to say: the playing section first, then the queued ones,
/// each as a speaker with remaining lines.
pub type DialogueTail = Seq<(DialogueCharacter, Seq<Seq<char>>)>;

/// The first line of the tail, skipping sections with no lines left.
pub open spec fn first_content(v: DialogueTail) -> Option<(DialogueCharacter, Seq<char>)>
    decreases v.len(),
{
    if v.len() == 0 {
        None
    } else if v[0].1.len() == 0 {
        first_content(v.skip(1))
    } else {
        Some((v[0].0, v[0].1[0]))
    }
}

/// The tail after one line is taken: exhausted sections in front go away,
/// then the first remaining section loses its first line.
pub open spec fn after_next(v: DialogueTail) -> DialogueTail
    decreases v.len(),
{
    if v.len() == 0 {
        v
    } else if v[0].1.len() == 0 {
        after_next(v.skip(1))
    } else {
        v.update(0, (v[0].0, v[0].1.skip(1)))
    }
}

impl Dialogue {
    /// A dialogue that has not started playing: every section still queued.
    pub fn new(name: String, list: VecDeque<DialogueSection>) -> (d: Dialogue)
        ensures
            d.spec_name() == name@,
            d.spec_sections() == list@.map_values(|s: DialogueSection| s.spec_pair()),
    {
        Dialogue { name, list, current: None }
    }

    /// The dialogue's name.
    pub closed spec fn spec_name(self) -> Seq<char> {
        self.name@
    }

    /// What is left of the dialogue, current section first.
    pub closed spec fn spec_sections(self) -> DialogueTail {
        let queued = self.list@.map_values(|s: DialogueSection| s.spec_pair());
        match self.current {
            Some(c) => seq![c.spec_pair()] + queued,
            None => queued,
        }
    }

    /// How much is left to walk: bounds the recursion of `next_dialogue`.
    pub closed spec fn sequencing_measure(self) -> int {
        3 * self.list@.len() + (if self.current is Some {
            2int
        } else {
            1int
        })
    }

    /// Takes the next line of the dialogue: the first line of the first
    /// section that still has one, with its speaker; `None` once every
    /// section is exhausted. Sections passed over on the way are dropped.
    pub fn next_dialogue(&mut self) -> (r: Option<DialogueContent>)
        ensures
            final(self).spec_name() == old(self).spec_name(),
            final(self).spec_sections() == after_next(old(self).spec_sections()),
            match r {
                Some(c) => first_content(old(self).spec_sections()) == Some(
                    (c.character, c.text@),
                ),
                None => first_content(old(self).spec_sections()) is None,
            },
        decreases self.sequencing_measure(),
    {
        let ghost v = self.spec_sections();
        let cur = self.current.take();
        match cur {
            Some(mut section) => {
                proof {
                    assert(v[0] == section.spec_pair());
                }
                let text = section.next_dialogue();
                match text {
                    Some(text) => {
                        proof {
                            assert(v[0].1[0] == text@);
                        }
                        let content = DialogueContent::new(section.character, text);
                        self.current = Some(section);
                        proof {
                            assert(section.list.deep_view() =~= v[0].1.skip(1));
                            assert(self.spec_sections() =~= v.update(
                                0,
                                (v[0].0, v[0].1.skip(1)),
                            ));
                        }
                        Some(content)
                    },
                    None => {
                        proof {
                            assert(v[0].1.len() == 0);
                        }
                        self.current = self.list.pop_front();
                        proof {
                            assert(self.spec_sections() =~= v.skip(1));
                        }
                        self.next_dialogue()
                    },
                }
            },
            None => {
                self.current = self.list.pop_front();
                if self.current.is_none() {
                    proof {
                        assert(v.len() == 0);
                        assert(self.spec_sections() =~= v);
                    }
                    return None;
                }
                proof {
                    assert(self.spec_sections() =~= v);
                }
                self.next_dialogue()
            },
        }
    }
}

impl DialogueSection {
    /// A copy of the section: the same speaker and the same lines.
    pub fn duplicate(&self) -> (r: DialogueSection)
        ensures
            r.spec_pair() == self.spec_pair(),
    {
        let mut texts: VecDeque<String> = VecDeque::new();
        let mut k: usize = 0;
        while k < self.list.len()
            invariant
                k <= self.list@.len(),
                texts@.len() == k,
                forall|t: int| 0 <= t < k ==> #[trigger] texts@[t]@ == self.list@[t]@,
            decreases self.list@.len() - k,
        {
            texts.push_back(self.list[k].clone());
            k += 1;
        }
        let r = DialogueSection { character: self.character, list: texts };
        proof {
            assert(r.list.deep_view() =~= self.list.deep_view());
        }
        r
    }
}

impl Dialogue {
    /// A copy of the dialogue: the same name and the same remaining lines.
    pub fn duplicate(&self) -> (r: Dialogue)
        ensures
            r.spec_name() == self.spec_name(),
            r.spec_sections() == self.spec_sections(),
    {
        let mut sections: VecDeque<DialogueSection> = VecDeque::new();
        let mut k: usize = 0;
        while k < self.list.len()
            invariant
                k <= self.list@.len(),
                sections@.len() == k,
                forall|t: int|
                    0 <= t < k ==> #[trigger] sections@[t].spec_pair() == self.list@[
                        t
                    ].spec_pair(),
            decreases self.list@.len() - k,
        {
            sections.push_back(self.list[k].duplicate());
            k += 1;
        }
        let current = match &self.current {
            Some(c) => Some(c.duplicate()),
            None => None,
        };
        let r = Dialogue { name: self.name.clone(), list: sections, current };
        proof {
            assert(r.spec_sections() =~= self.spec_sections());
        }
        r
    }
}

/// The dialogues of the game, as loaded from the dialogue file.
pub struct DialogueList {
    pub list: Vec<Dialogue>,
}

/// The least index of a dialogue with the given name, if any.
pub open spec fn find_dialogue(list: Seq<Dialogue>, name: Seq<char>) -> Option<int>
    decreases list.len(),
{
    if list.len() == 0 {
        None
    } else if list[0].spec_name() == name {
        Some(0)
    } else {
        match find_dialogue(list.skip(1), name) {
            Some(i) => Some(i + 1),
            None => None,
        }
    }
}

proof fn lemma_find_dialogue_spec(list: Seq<Dialogue>, name: Seq<char>)
    ensures
        match find_dialogue(list, name) {
            Some(i) => 0 <= i < list.len() && list[i].spec_name() == name && forall|k: int|
                0 <= k < i ==> list[k].spec_name() != name,
            None => forall|k: int| 0 <= k < list.len() ==> list[k].spec_name() != name,
        },
    decreases list.len(),
{
    if list.len() > 0 && list[0].spec_name() != name {
        lemma_find_dialogue_spec(list.skip(1), name);
        match find_dialogue(list.skip(1), name) {
            Some(i) => {
                assert(list.skip(1)[i] == list[i + 1]);
                assert forall|k: int| 0 <= k < i + 1 implies list[k].spec_name() != name by {
                    if k > 0 {
                        assert(list.skip(1)[k - 1] == list[k]);
                    }
                }
            },
            None => {
                assert forall|k: int| 0 <= k < list.len() implies list[k].spec_name() != name by {
                    if k > 0 {
                        assert(list.skip(1)[k - 1] == list[k]);
                    }
                }
            },
        }
    }
}

impl DialogueList {
    /// A copy of the first dialogue with this name, or `None` when no
    /// dialogue has it.
    pub fn get(&self, name: &String) -> (r: Option<Dialogue>)
        ensures
            match find_dialogue(self.list@, name@) {
                Some(i) => match r {
                    Some(d) => d.spec_name() == self.list@[i].spec_name() && d.spec_sections()
                        == self.list@[i].spec_sections(),
                    None => false,
                },
                None => r is None,
            },
    {
        let mut j: usize = 0;
        while j < self.list.len()
            invariant
                j <= self.list@.len(),
                forall|k: int| 0 <= k < j ==> #[trigger] self.list@[k].spec_name() != name@,
            decreases self.list@.len() - j,
        {
            if self.list[j].name == *name {
                proof {
                    lemma_find_dialogue_spec(self.list@, name@);
                    match find_dialogue(self.list@, name@) {
                        Some(i) => {
                            if i < j {
                                assert(self.list@[i].spec_name() != name@);
                            }
                            if i > j {
                                assert(self.list@[j as int].spec_name() != name@);
                            }
                        },
                        None => {
                            assert(self.list@[j as int].spec_name() != name@);
                        },
                    }
                }
                return Some(self.list[j].duplicate());
            }
            j += 1;
        }
        proof {
            lemma_find_dialogue_spec(self.list@, name@);
        }
        None
    }
}

/// Which dialogue plays now, and whether the dialogue display is live.
pub struct DialogueState {
    pub current: Option<Dialogue>,
    pub active: bool,
}

impl Default for DialogueState {
    /// Nothing loaded and the display idle.
    fn default() -> (s: DialogueState)
        ensures
            s.current is None,
            !s.active,
    {
        DialogueState { current: None, active: false }
    }
}

impl DialogueState {
    /// Loads the named dialogue from the list, if it is there, and turns the
    /// display live either way.
    pub fn load_dialogue(&mut self, name: &String, dialogues: &DialogueList)
        ensures
            final(self).active,
            match find_dialogue(dialogues.list@, name@) {
                Some(i) => match final(self).current {
                    Some(d) => d.spec_name() == dialogues.list@[i].spec_name()
                        && d.spec_sections() == dialogues.list@[i].spec_sections(),
                    None => false,
                },
                None => final(self).current is None,
            },
    {
        self.current = dialogues.get(name);
        self.active = true;
    }

    /// One step of the dialogue display: with the display live and a
    /// dialogue loaded, takes the dialogue's next line; when none is left
    /// the display goes idle. Idle or empty states are left alone.
    pub fn handle_dialogue(&mut self) -> (r: Option<DialogueContent>)
        ensures
            !old(self).active ==> *final(self) == *old(self) && r is None,
            old(self).active && old(self).current is None ==> *final(self) == *old(self)
                && r is None,
            old(self).active && old(self).current is Some ==> {
                let v = old(self).current->0.spec_sections();
                let n = old(self).current->0.spec_name();
                &&& match final(self).current {
                    Some(d) => d.spec_sections() == after_next(v) && d.spec_name() == n,
                    None => false,
                }
                &&& match r {
                    Some(c) => first_content(v) == Some((c.character, c.text@))
                        && final(self).active,
                    None => first_content(v) is None && !final(self).active,
                }
            },
    {
        if !self.active {
            return None;
        }
        let has_current = self.current.is_some();
        if !has_current {
            return None;
        }
        let mut current = self.current.take().unwrap();
        let content = current.next_dialogue();
        self.current = Some(current);
        if content.is_none() {
            self.active = false;
        }
        content
    }
}

/// Every line still to play, in order, each with its speaker.
pub open spec fn remaining_lines(v: DialogueTail) -> Seq<(DialogueCharacter, Seq<char>)>
    decreases v.len(),
{
    if v.len() == 0 {
        Seq::empty()
    } else {
        v[0].1.map_values(|t: Seq<char>| (v[0].0, t)) + remaining_lines(v.skip(1))
    }
}

/// The sequencer loses nothing and invents nothing: the next line taken
/// from a dialogue tail is the head of its remaining lines, and what is
/// left afterwards is exactly the rest of them.
pub proof fn lemma_sequencing_plays_lines_in_order(v: DialogueTail)
    ensures
        first_content(v) == (if remaining_lines(v).len() == 0 {
            None
        } else {
            Some(remaining_lines(v)[0])
        }),
        remaining_lines(after_next(v)) == (if remaining_lines(v).len() == 0 {
            Seq::<(DialogueCharacter, Seq<char>)>::empty()
        } else {
            remaining_lines(v).skip(1)
        }),
    decreases v.len(),
{
    if v.len() == 0 {
    } else if v[0].1.len() == 0 {
        lemma_sequencing_plays_lines_in_order(v.skip(1));
        assert(remaining_lines(v) =~= remaining_lines(v.skip(1)));
    } else {
        let lines = v[0].1;
        let c = v[0].0;
        let head = lines.map_values(|t: Seq<char>| (c, t));
        assert(remaining_lines(v)[0] == head[0]);
        let w = v.update(0, (c, lines.skip(1)));
        assert(w.skip(1) =~= v.skip(1));
        assert(remaining_lines(w) == lines.skip(1).map_values(|t: Seq<char>| (c, t))
            + remaining_lines(v.skip(1)));
        assert(remaining_lines(w) =~= remaining_lines(v).skip(1));
    }
}

} // verus!
