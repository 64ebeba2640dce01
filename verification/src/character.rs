//! A character's table of actions, and the roster of all characters, both
//! found by name.

use vstd::prelude::*;
use crate::action::{Action, ActionView, LoadError, LoadErrorView};

verus! {

/// No name occurs twice.
pub open spec fn distinct(names: Seq<Seq<char>>) -> bool {
    forall|i: int, j: int| 0 <= i < j < names.len() ==> names[i] != names[j]
}

/// `j` is the first place whose name already stands at an earlier place.
pub open spec fn first_repeat(names: Seq<Seq<char>>, j: int) -> bool {
    &&& 0 <= j < names.len()
    &&& exists|i: int| 0 <= i < j && names[i] == names[j]
    &&& distinct(names.take(j))
}

/// The table that maps each name to the value standing at its place.
pub open spec fn table_of<V>(names: Seq<Seq<char>>, values: Seq<V>) -> Map<Seq<char>, V> {
    Map::new(|n: Seq<char>| names.contains(n), |n: Seq<char>| values[names.index_of(n)])
}

/// The names of the actions, in order.
pub open spec fn action_names(actions: Seq<Action>) -> Seq<Seq<char>> {
    Seq::new(actions.len(), |i: int| actions[i]@.name)
}

/// The actions as plain data, in order.
pub open spec fn action_views(actions: Seq<Action>) -> Seq<ActionView> {
    Seq::new(actions.len(), |i: int| actions[i]@)
}

/// In a table made of distinct names, each name leads to the value at its
/// own place, and nothing else is in the table.
pub proof fn lemma_table_of<V>(names: Seq<Seq<char>>, values: Seq<V>)
    requires
        distinct(names),
        names.len() == values.len(),
    ensures
        forall|i: int|
            0 <= i < names.len() ==> table_of(names, values).contains_key(#[trigger] names[i])
                && table_of(names, values)[names[i]] == values[i],
        forall|n: Seq<char>| #[trigger]
            table_of(names, values).contains_key(n) ==> exists|i: int|
                0 <= i < names.len() && names[i] == n,
{
    assert forall|i: int| 0 <= i < names.len() implies table_of(names, values).contains_key(
        #[trigger] names[i],
    ) && table_of(names, values)[names[i]] == values[i] by {
        let n = names[i];
        assert(names.contains(n));
        let k = names.index_of(n);
        assert(0 <= k < names.len() && names[k] == n);
        if k < i {
            assert(names[k] != names[i]);
        } else if i < k {
            assert(names[i] != names[k]);
        }
    }
}

/// The names behind a run of strings, in order.
pub open spec fn names_of(names: Seq<String>) -> Seq<Seq<char>> {
    Seq::new(names.len(), |i: int| names[i]@)
}

/// The first place whose name already stands at an earlier place, or
/// nothing where no name repeats.
fn find_repeat(names: &Vec<String>) -> (r: Option<usize>)
    ensures
        match r {
            Some(j) => first_repeat(names_of(names@), j as int),
            None => distinct(names_of(names@)),
        },
{
    let ghost all = names_of(names@);
    let mut j: usize = 0;
    while j < names.len()
        invariant
            j <= names.len(),
            all == names_of(names@),
            distinct(all.take(j as int)),
        decreases names.len() - j,
    {
        let mut i: usize = 0;
        while i < j
            invariant
                i <= j < names.len(),
                all == names_of(names@),
                distinct(all.take(j as int)),
                forall|k: int| 0 <= k < i ==> all[k] != all[j as int],
            decreases j - i,
        {
            if names[i] == names[j] {
                proof {
                    assert(all[i as int] == all[j as int]);
                    assert(first_repeat(all, j as int));
                }
                return Some(j);
            }
            i += 1;
        }
        proof {
            let before = all.take(j as int);
            let upto = all.take(j + 1);
            assert forall|a: int, b: int| 0 <= a < b < upto.len() implies upto[a] != upto[b] by {
                if b < j {
                    assert(before[a] == all[a]);
                    assert(before[b] == all[b]);
                }
            }
        }
        j += 1;
    }
    proof {
        assert(all.take(names.len() as int) =~= all);
    }
    None
}

/// What a character is, as plain data.
pub struct CharacterView {
    pub name: Seq<char>,
    pub actions: Map<Seq<char>, ActionView>,
}

impl CharacterView {
    /// Every action of the table may be played and stands under its own
    /// name.
    pub open spec fn wf(self) -> bool {
        forall|n: Seq<char>| #[trigger]
            self.actions.contains_key(n) ==> self.actions[n].wf() && self.actions[n].name == n
    }
}

/// The actions of one character, found by name. They are held in the
/// engine's hash map.
#[verifier::external_body]
#[derive(Debug)]
pub struct ActionTable {
    map: bevy::utils::HashMap<String, Action>,
}

/// What a table of actions holds: each action, as plain data, under the
/// name it was put in under.
pub uninterp spec fn table_contents(table: ActionTable) -> Map<Seq<char>, ActionView>;

/// The table that holds no action.
pub open spec fn no_actions() -> Map<Seq<char>, ActionView> {
    Map::empty()
}

/// Makes an empty `bevy::utils::HashMap` with `HashMap::default`.
///
/// Taken on trust: the new map holds nothing.
#[verifier::external_body]
fn table_new() -> (made: ActionTable)
    ensures
        table_contents(made) == no_actions(),
{
    ActionTable { map: bevy::utils::HashMap::default() }
}

/// Puts an action into the map with `HashMap::insert`.
///
/// Taken on trust: the map then holds the action under `name`, in place of
/// whatever stood under that name, and everything else as before.
#[verifier::external_body]
fn table_insert(table: &mut ActionTable, name: String, action: Action)
    ensures
        table_contents(*final(table)) == table_contents(*old(table)).insert(name@, action@),
{
    table.map.insert(name, action);
}

/// Looks a name up in the map with `HashMap::get`.
///
/// Taken on trust: the answer is what the map holds under `name`, and
/// nothing exactly where the map holds nothing under it.
#[verifier::external_body]
fn table_get<'a>(table: &'a ActionTable, name: &str) -> (found: Option<&'a Action>)
    ensures
        match found {
            Some(action) => table_contents(*table).contains_key(name@) && table_contents(
                *table,
            )[name@] == action@,
            None => !table_contents(*table).contains_key(name@),
        },
{
    table.map.get(name)
}

/// A character: its name and the actions it can play.
#[derive(Debug)]
pub struct Character {
    name: String,
    actions: ActionTable,
}

impl View for Character {
    type V = CharacterView;

    closed spec fn view(&self) -> CharacterView {
        CharacterView { name: self.name@, actions: table_contents(self.actions) }
    }
}

impl Character {
    #[verifier::type_invariant]
    pub(crate) closed spec fn inv(self) -> bool {
        self@.wf()
    }

    /// Makes a character of its actions. A table that names an action
    /// twice is turned down, with the first name that repeats.
    pub fn new(name: String, actions: Vec<Action>) -> (r: Result<Character, LoadError>)
        ensures
            match r {
                Ok(c) => {
                    &&& distinct(action_names(actions@))
                    &&& c@.name == name@
                    &&& c@.actions == table_of(action_names(actions@), action_views(actions@))
                    &&& c@.wf()
                },
                Err(e) => exists|j: int|
                    first_repeat(action_names(actions@), j) && e@ == (
                    LoadErrorView::DuplicateAction {
                        character: name@,
                        action: #[trigger] action_names(actions@)[j],
                    }),
            },
    {
        let ghost all = actions@;
        let ghost keys = action_names(all);
        let ghost views = action_views(all);
        let mut names: Vec<String> = Vec::new();
        let mut i: usize = 0;
        while i < actions.len()
            invariant
                i <= actions.len(),
                names.len() == i,
                forall|k: int| 0 <= k < i ==> (#[trigger] names@[k])@ == actions@[k]@.name,
                forall|k: int| 0 <= k < i ==> (#[trigger] actions@[k])@.wf(),
            decreases actions.len() - i,
        {
            let current: &Action = &actions[i];
            proof {
                use_type_invariant(current);
            }
            names.push(current.name().clone());
            i += 1;
        }
        assert(names_of(names@) =~= keys);
        match find_repeat(&names) {
            Some(j) => {
                let repeated: String = names[j].clone();
                return Err(LoadError::DuplicateAction { character: name, action: repeated });
            },
            None => {},
        }
        let mut rest: Vec<Action> = actions;
        let mut table: ActionTable = table_new();
        while rest.len() > 0
            invariant
                rest@ == all.take(rest.len() as int),
                rest.len() <= all.len(),
                keys == action_names(all),
                views == action_views(all),
                distinct(keys),
                forall|k: int| 0 <= k < all.len() ==> (#[trigger] all[k])@.wf(),
                forall|n: Seq<char>| #[trigger]
                    table_contents(table).contains_key(n) <==> exists|k: int|
                        rest.len() <= k < all.len() && keys[k] == n,
                forall|k: int|
                    rest.len() <= k < all.len() ==> table_contents(table)[#[trigger] keys[k]]
                        == views[k],
            decreases rest.len(),
        {
            let ghost held = table_contents(table);
            let ghost at = rest.len() - 1;
            match rest.pop() {
                Some(action) => {
                    assert(action == all[at]);
                    let key: String = action.name().clone();
                    assert(key@ == keys[at]);
                    table_insert(&mut table, key, action);
                    proof {
                        let now = table_contents(table);
                        assert(now == held.insert(keys[at], views[at]));
                        assert forall|n: Seq<char>| #[trigger] now.contains_key(n) implies exists|
                            k: int,
                        | at <= k < all.len() && keys[k] == n by {
                            if n != keys[at] {
                                assert(held.contains_key(n));
                            }
                        }
                        assert forall|k: int| at <= k < all.len() implies now[#[trigger] keys[k]]
                            == views[k] by {
                            if k != at {
                                assert(keys[at] != keys[k]);
                            }
                        }
                    }
                },
                None => {},
            }
        }
        proof {
            lemma_table_of(keys, views);
            lemma_table_wf(all);
            let held = table_contents(table);
            let wanted = table_of(keys, views);
            assert forall|n: Seq<char>| held.contains_key(n) == wanted.contains_key(n) by {
                if wanted.contains_key(n) {
                    let k = choose|k: int| 0 <= k < keys.len() && keys[k] == n;
                    assert(held.contains_key(keys[k]));
                }
            }
            assert forall|n: Seq<char>| held.contains_key(n) implies held[n] == wanted[n] by {
                let k = choose|k: int| 0 <= k < all.len() && keys[k] == n;
                assert(held[keys[k]] == views[k]);
                assert(wanted[keys[k]] == views[k]);
            }
            assert(held =~= wanted);
        }
        Ok(Character { name, actions: table })
    }

    pub fn name(&self) -> (r: &String)
        ensures
            r@ == self@.name,
    {
        &self.name
    }

    /// The action called `name`, or nothing where the table has none.
    pub fn action(&self, name: &str) -> (r: Option<&Action>)
        ensures
            self@.wf(),
            match r {
                Some(a) => self@.actions.contains_key(name@) && self@.actions[name@] == a@,
                None => !self@.actions.contains_key(name@),
            },
    {
        proof {
            use_type_invariant(self);
        }
        table_get(&self.actions, name)
    }
}

/// A table of actions that each may be played, under distinct names, is
/// well formed.
proof fn lemma_table_wf(actions: Seq<Action>)
    requires
        distinct(action_names(actions)),
        forall|i: int| 0 <= i < actions.len() ==> (#[trigger] actions[i])@.wf(),
    ensures
        (CharacterView {
            name: Seq::empty(),
            actions: table_of(action_names(actions), action_views(actions)),
        }).wf(),
{
    let names = action_names(actions);
    let views = action_views(actions);
    lemma_table_of(names, views);
    assert forall|n: Seq<char>| #[trigger] table_of(names, views).contains_key(n) implies table_of(
        names,
        views,
    )[n].wf() && table_of(names, views)[n].name == n by {
        let i = choose|i: int| 0 <= i < names.len() && names[i] == n;
        assert(table_of(names, views)[names[i]] == views[i]);
        assert(actions[i]@.wf());
    }
}

/// Every character that has been loaded, found by name. The characters
/// are held in the engine's hash map.
#[verifier::external_body]
#[derive(Debug)]
pub struct Characters {
    map: bevy::utils::HashMap<String, Character>,
}

/// What a roster holds: each character, as plain data, under the name it
/// was put in under.
pub uninterp spec fn roster_contents(roster: Characters) -> Map<Seq<char>, CharacterView>;

impl View for Characters {
    type V = Map<Seq<char>, CharacterView>;

    open spec fn view(&self) -> Map<Seq<char>, CharacterView> {
        roster_contents(*self)
    }
}

/// The roster that holds nobody.
pub open spec fn nobody() -> Map<Seq<char>, CharacterView> {
    Map::empty()
}

/// Makes an empty `bevy::utils::HashMap` with `HashMap::default`.
///
/// Taken on trust: the new map holds nothing.
#[verifier::external_body]
fn roster_new() -> (made: Characters)
    ensures
        roster_contents(made) == nobody(),
{
    Characters { map: bevy::utils::HashMap::default() }
}

/// Puts a character into the map with `HashMap::insert`.
///
/// Taken on trust: the map then holds the character under `name`, in place
/// of whatever stood under that name, and everything else as before.
#[verifier::external_body]
fn roster_insert(roster: &mut Characters, name: String, character: Character)
    ensures
        roster_contents(*final(roster)) == roster_contents(*old(roster)).insert(
            name@,
            character@,
        ),
{
    roster.map.insert(name, character);
}

/// Looks a name up in the map with `HashMap::get`.
///
/// Taken on trust: the answer is what the map holds under `name`, and
/// nothing exactly where the map holds nothing under it.
#[verifier::external_body]
fn roster_get<'a>(roster: &'a Characters, name: &str) -> (found: Option<&'a Character>)
    ensures
        match found {
            Some(character) => roster_contents(*roster).contains_key(name@) && roster_contents(
                *roster,
            )[name@] == character@,
            None => !roster_contents(*roster).contains_key(name@),
        },
{
    roster.map.get(name)
}

impl Default for Characters {
    fn default() -> (r: Characters)
        ensures
            r@ == nobody(),
    {
        Characters::new()
    }
}

impl Characters {
    /// A roster with nobody in it.
    pub fn new() -> (r: Characters)
        ensures
            r@ == nobody(),
    {
        roster_new()
    }

    /// Puts `character` into the roster under its own name, in place of
    /// whoever stood there.
    pub fn insert(&mut self, character: Character)
        ensures
            final(self)@ == old(self)@.insert(character@.name, character@),
    {
        let name: String = character.name().clone();
        roster_insert(self, name, character);
    }

    /// The character that stands under `name`, or nothing where nobody
    /// does. A character that is found may be played.
    pub fn get(&self, name: &str) -> (r: Option<&Character>)
        ensures
            match r {
                Some(c) => self@.contains_key(name@) && self@[name@] == c@ && c@.wf(),
                None => !self@.contains_key(name@),
            },
    {
        match roster_get(self, name) {
            Some(character) => {
                proof {
                    use_type_invariant(character);
                }
                Some(character)
            },
            None => None,
        }
    }
}

} // verus!
