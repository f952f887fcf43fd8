//! The prompt that marks a pending decision, and the parser that turns a
//! typed command into an action invocation.

use crate::actions::action_template::Action;
use crate::actions::action_template::ActionArgs;
use crate::actions::action_template::ActionExecutionInfo;
use crate::actions::action_template::ActionHandle;
use crate::actions::action_template::invocation_valid;
use crate::actions::action_template::InvocationView;
use crate::engine::encounter::EncounterInstance;
use crate::engine::model::EncounterView;
use crate::engine::errors::ParseError;
use crate::engine::types::Coordinate;
use crate::engine::util::parse_coord;
use crate::engine::util::spec_parse_coord;
use vstd::prelude::*;
use vstd::string::StringExecFns;
use vstd::string::StrSliceExecFns;

verus! {

/// Mathematical content of a [`Prompt`].
pub ghost struct PromptView {
    pub actor_id: usize,
    pub actions: Seq<ActionHandle>,
}

/// Marks that the engine waits for a decision of one actor, and holds the
/// actions that actor can choose from.
#[derive(Debug)]
pub struct Prompt {
    actor_id: usize,
    actions: Vec<ActionHandle>,
}

impl View for Prompt {
    type V = PromptView;

    closed spec fn view(&self) -> PromptView {
        PromptView { actor_id: self.actor_id, actions: self.actions@ }
    }
}

impl Prompt {
    pub fn new(actor_id: usize, actions: Vec<ActionHandle>) -> (prompt: Prompt)
        ensures
            prompt@ == (PromptView { actor_id: actor_id, actions: actions@ }),
    {
        Prompt { actor_id, actions }
    }

    pub fn actor_id(&self) -> (actor_id: usize)
        ensures
            actor_id == self@.actor_id,
    {
        self.actor_id
    }

    pub fn actions(&self) -> (actions: &Vec<ActionHandle>)
        ensures
            actions@ == self@.actions,
    {
        &self.actions
    }
}

/// Whether the character separates the words of a command: one of the
/// characters with the Unicode property `White_Space`.
pub open spec fn is_whitespace(c: char) -> bool {
    let u = c as u32;
    ||| 0x09 <= u <= 0x0d
    ||| u == 0x20
    ||| u == 0x85
    ||| u == 0xa0
    ||| u == 0x1680
    ||| 0x2000 <= u <= 0x200a
    ||| u == 0x2028
    ||| u == 0x2029
    ||| u == 0x202f
    ||| u == 0x205f
    ||| u == 0x3000
}

/// What reading a text from the left has found: the words that have
/// ended, and the word that has begun and not ended yet.
pub ghost struct Scan {
    pub done: Seq<Seq<char>>,
    pub current: Seq<char>,
}

/// Reads a text character by character: a whitespace character ends the
/// word that has begun, any other character continues it or begins one.
pub open spec fn scan(s: Seq<char>) -> Scan
    decreases s.len(),
{
    if s.len() == 0 {
        Scan { done: Seq::empty(), current: Seq::empty() }
    } else {
        let before = scan(s.drop_last());
        if is_whitespace(s.last()) {
            if before.current.len() > 0 {
                Scan { done: before.done.push(before.current), current: Seq::empty() }
            } else {
                before
            }
        } else {
            Scan { done: before.done, current: before.current.push(s.last()) }
        }
    }
}

/// The words of a text: its maximal runs of characters that are not
/// whitespace, in order.
pub open spec fn tokens(s: Seq<char>) -> Seq<Seq<char>> {
    if scan(s).current.len() > 0 {
        scan(s).done.push(scan(s).current)
    } else {
        scan(s).done
    }
}

/// Whether `name` is the name of the action or one of its aliases.
pub open spec fn answers_to(action: ActionHandle, name: Seq<char>) -> bool {
    action.spec_name() == name || action.spec_aliases().contains(name)
}

/// The first of the actions, at or after position `from`, that answers to
/// `name`.
pub open spec fn find_action(actions: Seq<ActionHandle>, name: Seq<char>, from: int) -> Option<
    ActionHandle,
>
    decreases actions.len() - from,
{
    if from < 0 || from >= actions.len() {
        None
    } else if answers_to(actions[from], name) {
        Some(actions[from])
    } else {
        find_action(actions, name, from + 1)
    }
}

/// The coordinates that the words denote for an actor at `base`, in
/// order; words that denote none are left out.
pub open spec fn parsed_coords(words: Seq<Seq<char>>, base: Coordinate) -> Seq<Coordinate>
    decreases words.len(),
{
    if words.len() == 0 {
        Seq::empty()
    } else {
        match spec_parse_coord(words.last(), base) {
            Some(c) => parsed_coords(words.drop_last(), base).push(c),
            None => parsed_coords(words.drop_last(), base),
        }
    }
}

impl PromptView {
    /// The invocation that a command asks for: the action that its first
    /// word names, by the prompted actor, on the coordinates that the other
    /// words denote.
    pub open spec fn invocation(self, action: ActionHandle, words: Seq<Seq<char>>, base: Coordinate) -> InvocationView {
        let locations = parsed_coords(words.skip(1), base);
        InvocationView {
            action: action,
            args: ActionArgs {
                caster_id: self.actor_id,
                target_ids: None,
                target_locations: if locations.len() > 0 {
                    Some(locations)
                } else {
                    None
                },
                overrides: None,
            },
        }
    }

    /// What a command leads to: the invocation it asks for, where its first
    /// word names an action of the prompt and the invocation is legal in
    /// the encounter; else the text of the error.
    pub open spec fn process_input(self, input: Seq<char>, encounter: EncounterView) -> Result<
        InvocationView,
        Seq<char>,
    > {
        let words = tokens(input);
        if words.len() == 0 {
            Err("EMPTY"@)
        } else {
            match find_action(self.actions, words[0], 0) {
                None => Err("could not find action "@ + words[0]),
                Some(action) => {
                    let invocation = self.invocation(
                        action,
                        words,
                        encounter.actors[self.actor_id].location,
                    );
                    if invocation_valid(encounter, invocation) {
                        Ok(invocation)
                    } else {
                        Err("argument validation failed for "@ + input)
                    }
                },
            }
        }
    }
}

fn is_whitespace_char(c: char) -> (r: bool)
    ensures
        r == is_whitespace(c),
{
    let u: u32 = c as u32;
    (0x09 <= u && u <= 0x0d) || u == 0x20 || u == 0x85 || u == 0xa0 || u == 0x1680 || (0x2000 <= u
        && u <= 0x200a) || u == 0x2028 || u == 0x2029 || u == 0x202f || u == 0x205f || u == 0x3000
}

/// Splits a text into its words.
pub fn split_tokens<'a>(input: &'a str) -> (words: Vec<&'a str>)
    ensures
        words@.len() == tokens(input@).len(),
        forall|i: int| 0 <= i < words@.len() ==> (#[trigger] words@[i])@ == tokens(input@)[i],
{
    let len = input.unicode_len();
    let mut words: Vec<&'a str> = Vec::new();
    let mut start: usize = 0;
    let mut i: usize = 0;
    assert(input@.take(0).len() == 0);
    while i < len
        invariant
            len == input@.len(),
            start <= i <= len,
            words@.len() == scan(input@.take(i as int)).done.len(),
            forall|k: int|
                0 <= k < words@.len() ==> (#[trigger] words@[k])@ == scan(
                    input@.take(i as int),
                ).done[k],
            scan(input@.take(i as int)).current == input@.subrange(start as int, i as int),
        decreases len - i,
    {
        let c = input.get_char(i);
        proof {
            assert(input@.take(i + 1).drop_last() == input@.take(i as int));
            assert(input@.take(i + 1).last() == c);
        }
        if is_whitespace_char(c) {
            if start < i {
                words.push(input.substring_char(start, i));
            }
            start = i + 1;
            assert(input@.subrange(start as int, i + 1).len() == 0);
        } else {
            assert(input@.subrange(start as int, i + 1) == input@.subrange(
                start as int,
                i as int,
            ).push(c));
        }
        i += 1;
    }
    assert(input@.take(len as int) == input@);
    if start < len {
        words.push(input.substring_char(start, len));
    }
    words
}

/// Whether two texts hold the same characters.
pub fn same_text(a: &str, b: &str) -> (same: bool)
    ensures
        same == (a@ == b@),
{
    let n = a.unicode_len();
    if n != b.unicode_len() {
        return false;
    }
    let mut i: usize = 0;
    while i < n
        invariant
            n == a@.len(),
            n == b@.len(),
            i <= n,
            forall|k: int| 0 <= k < i ==> a@[k] == b@[k],
        decreases n - i,
    {
        if a.get_char(i) != b.get_char(i) {
            return false;
        }
        i += 1;
    }
    assert(a@ =~= b@);
    true
}

/// Whether `name` is the name of the action or one of its aliases.
pub fn action_answers_to(action: ActionHandle, name: &str) -> (r: bool)
    ensures
        r == answers_to(action, name@),
{
    if same_text(action.name(), name) {
        return true;
    }
    let aliases = action.aliases();
    let mut i: usize = 0;
    while i < aliases.len()
        invariant
            i <= aliases.len(),
            aliases@.len() == action.spec_aliases().len(),
            forall|k: int|
                0 <= k < aliases@.len() ==> (#[trigger] aliases@[k])@ == action.spec_aliases()[k],
            forall|k: int| 0 <= k < i ==> action.spec_aliases()[k] != name@,
        decreases aliases.len() - i,
    {
        if same_text(aliases[i], name) {
            assert(action.spec_aliases()[i as int] == name@);
            return true;
        }
        i += 1;
    }
    false
}

impl Prompt {
    /// Turns a command into an action invocation of the prompted actor.
    ///
    /// The first word names the action, by its name or an alias, exactly.
    /// Every other word that is a coordinate adds a target location; the
    /// rest is ignored. The invocation must be legal in the encounter as it
    /// stands.
    pub fn process_input(&self, input: &str, encounter_instance: &EncounterInstance) -> (r: Result<
        ActionExecutionInfo,
        ParseError,
    >)
        requires
            encounter_instance@.grid_ok(),
            encounter_instance@.actors.contains_key(self@.actor_id),
        ensures
            match r {
                Ok(info) => self@.process_input(input@, encounter_instance@) == Ok::<
                    InvocationView,
                    Seq<char>,
                >(info@),
                Err(e) => self@.process_input(input@, encounter_instance@) == Err::<
                    InvocationView,
                    Seq<char>,
                >(e@),
            },
    {
        let actor = encounter_instance.get_actor(self.actor_id).unwrap();
        let base = actor.location();
        let words = split_tokens(input);
        if words.len() == 0 {
            return Err(ParseError::new("EMPTY"));
        }
        let action_name: &str = words[0];
        let mut found: Option<ActionHandle> = None;
        let mut k: usize = 0;
        while k < self.actions.len() && found.is_none()
            invariant
                k <= self.actions.len(),
                found.is_none() ==> find_action(self.actions@, action_name@, k as int)
                    == find_action(self.actions@, action_name@, 0),
                found.is_some() ==> found == find_action(self.actions@, action_name@, 0),
            decreases self.actions.len() - k, found.is_none() as int,
        {
            if action_answers_to(self.actions[k], action_name) {
                found = Some(self.actions[k]);
            } else {
                k += 1;
            }
        }
        let action: ActionHandle = match found {
            Some(a) => a,
            None => {
                return Err(
                    ParseError::new(
                        String::from_str("could not find action ").concat(action_name).as_str(),
                    ),
                );
            },
        };
        let mut target_locations: Vec<Coordinate> = Vec::new();
        let mut t: usize = 1;
        assert(tokens(input@).skip(1).take(0).len() == 0);
        while t < words.len()
            invariant
                1 <= t <= words.len(),
                words@.len() == tokens(input@).len(),
                forall|i: int|
                    0 <= i < words@.len() ==> (#[trigger] words@[i])@ == tokens(input@)[i],
                target_locations@ == parsed_coords(tokens(input@).skip(1).take(t - 1), base),
            decreases words.len() - t,
        {
            proof {
                let rest = tokens(input@).skip(1);
                assert(rest.take(t as int).drop_last() == rest.take(t - 1));
                assert(rest.take(t as int).last() == words@[t as int]@);
            }
            if let Some(coord) = parse_coord(words[t], base) {
                target_locations.push(coord);
            }
            t += 1;
        }
        assert(tokens(input@).skip(1).take(words.len() - 1) == tokens(input@).skip(1));
        let aei = ActionExecutionInfo::new(
            action,
            self.actor_id,
            None,
            if target_locations.len() > 0 {
                Some(target_locations)
            } else {
                None
            },
            None,
        );
        if !aei.validate(encounter_instance) {
            return Err(
                ParseError::new(
                    String::from_str("argument validation failed for ").concat(input).as_str(),
                ),
            );
        }
        Ok(aei)
    }
}

} // verus!
