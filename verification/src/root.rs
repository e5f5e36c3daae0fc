//! The root keys of the registry, and which of them are to be searched.

use vstd::prelude::*;
use vstd::string::*;

verus! {

/// A root key of the registry.
#[derive(Clone, Copy, Debug, PartialEq, Eq, Structural)]
pub enum Root {
    HkeyClassesRoot,
    HkeyCurrentUser,
    HkeyLocalMachine,
    HkeyUsers,
    HkeyCurrentConfig,
}

/// The root keys in the order in which they are listed.
pub open spec fn all_roots() -> Seq<Root> {
    seq![
        Root::HkeyClassesRoot,
        Root::HkeyCurrentUser,
        Root::HkeyLocalMachine,
        Root::HkeyUsers,
        Root::HkeyCurrentConfig,
    ]
}

impl Root {
    /// The place of the root key in the list of all of them.
    pub open spec fn number(self) -> u8 {
        match self {
            Root::HkeyClassesRoot => 0,
            Root::HkeyCurrentUser => 1,
            Root::HkeyLocalMachine => 2,
            Root::HkeyUsers => 3,
            Root::HkeyCurrentConfig => 4,
        }
    }

    /// The name of the root key in the registry.
    pub open spec fn label(self) -> Seq<char> {
        match self {
            Root::HkeyClassesRoot => "HKEY_CLASSES_ROOT"@,
            Root::HkeyCurrentUser => "HKEY_CURRENT_USER"@,
            Root::HkeyLocalMachine => "HKEY_LOCAL_MACHINE"@,
            Root::HkeyUsers => "HKEY_USERS"@,
            Root::HkeyCurrentConfig => "HKEY_CURRENT_CONFIG"@,
        }
    }

    /// All root keys, in the order in which they are listed.
    pub fn all() -> (r: Vec<Root>)
        ensures
            r@ == all_roots(),
    {
        let roots = vec![
            Root::HkeyClassesRoot,
            Root::HkeyCurrentUser,
            Root::HkeyLocalMachine,
            Root::HkeyUsers,
            Root::HkeyCurrentConfig,
        ];
        assert(roots@ =~= all_roots());
        roots
    }

    /// The name of the root key in the registry.
    pub fn to_string(&self) -> (r: String)
        ensures
            r@ == self.label(),
    {
        match self {
            Root::HkeyClassesRoot => "HKEY_CLASSES_ROOT".to_owned(),
            Root::HkeyCurrentUser => "HKEY_CURRENT_USER".to_owned(),
            Root::HkeyLocalMachine => "HKEY_LOCAL_MACHINE".to_owned(),
            Root::HkeyUsers => "HKEY_USERS".to_owned(),
            Root::HkeyCurrentConfig => "HKEY_CURRENT_CONFIG".to_owned(),
        }
    }

    /// The place of the root key in the list of all of them.
    pub fn to_u8(self) -> (r: u8)
        ensures
            r == self.number(),
    {
        match self {
            Root::HkeyClassesRoot => 0,
            Root::HkeyCurrentUser => 1,
            Root::HkeyLocalMachine => 2,
            Root::HkeyUsers => 3,
            Root::HkeyCurrentConfig => 4,
        }
    }

    /// The root key at place `value` of the list of all of them.
    pub fn from_u8(value: u8) -> (r: Option<Self>)
        ensures
            r == if value < all_roots().len() {
                Some(all_roots()[value as int])
            } else {
                None
            },
    {
        match value {
            0 => Some(Root::HkeyClassesRoot),
            1 => Some(Root::HkeyCurrentUser),
            2 => Some(Root::HkeyLocalMachine),
            3 => Some(Root::HkeyUsers),
            4 => Some(Root::HkeyCurrentConfig),
            _ => None,
        }
    }
}

/// `selected` after the choice on `root` is turned round.
pub open spec fn toggled(selected: Set<Root>, root: Root) -> Set<Root> {
    if selected.contains(root) {
        selected.remove(root)
    } else {
        selected.insert(root)
    }
}

/// The root keys that are to be searched.
#[derive(Debug)]
pub struct SelectedRoots {
    classes_root: bool,
    current_user: bool,
    local_machine: bool,
    users: bool,
    current_config: bool,
}

impl View for SelectedRoots {
    type V = Set<Root>;

    closed spec fn view(&self) -> Set<Root> {
        Set::new(
            |root: Root|
                match root {
                    Root::HkeyClassesRoot => self.classes_root,
                    Root::HkeyCurrentUser => self.current_user,
                    Root::HkeyLocalMachine => self.local_machine,
                    Root::HkeyUsers => self.users,
                    Root::HkeyCurrentConfig => self.current_config,
                },
        )
    }
}

impl Default for SelectedRoots {
    /// The choice that the program starts with.
    fn default() -> (r: Self)
        ensures
            r@ == set![Root::HkeyLocalMachine, Root::HkeyUsers],
    {
        let r = Self {
            classes_root: false,
            current_user: false,
            local_machine: true,
            users: true,
            current_config: false,
        };
        assert(r@ =~= set![Root::HkeyLocalMachine, Root::HkeyUsers]);
        r
    }
}

impl SelectedRoots {
    /// The selected root keys, in the order of the list of all of them.
    pub fn export_roots(&self) -> (r: Vec<Root>)
        ensures
            r@ == all_roots().filter(|root: Root| self@.contains(root)),
    {
        let mut selected_roots: Vec<Root> = Vec::new();

        if self.classes_root {
            selected_roots.push(Root::HkeyClassesRoot);
        }
        if self.current_user {
            selected_roots.push(Root::HkeyCurrentUser);
        }
        if self.local_machine {
            selected_roots.push(Root::HkeyLocalMachine);
        }
        if self.users {
            selected_roots.push(Root::HkeyUsers);
        }
        if self.current_config {
            selected_roots.push(Root::HkeyCurrentConfig);
        }
        proof {
            let chosen = |root: Root| self@.contains(root);
            let all = all_roots();
            reveal_with_fuel(Seq::filter, 6);
            assert(all.drop_last() =~= all.take(4));
            assert(all.take(4).drop_last() =~= all.take(3));
            assert(all.take(3).drop_last() =~= all.take(2));
            assert(all.take(2).drop_last() =~= all.take(1));
            assert(all.take(1).drop_last() =~= Seq::<Root>::empty());
            assert(selected_roots@ =~= all.filter(chosen));
        }
        selected_roots
    }

    /// Whether `root` is selected.
    pub fn is_enabled(&self, root: &Root) -> (r: bool)
        ensures
            r == self@.contains(*root),
    {
        match root {
            Root::HkeyClassesRoot => self.classes_root,
            Root::HkeyCurrentUser => self.current_user,
            Root::HkeyLocalMachine => self.local_machine,
            Root::HkeyUsers => self.users,
            Root::HkeyCurrentConfig => self.current_config,
        }
    }

    /// Selects `root` where it was not selected, and drops it where it was.
    pub fn toggle(&mut self, root: &Root)
        ensures
            final(self)@ == toggled(old(self)@, *root),
    {
        let ghost before = self@;
        match root {
            Root::HkeyClassesRoot => self.classes_root = !self.classes_root,
            Root::HkeyCurrentUser => self.current_user = !self.current_user,
            Root::HkeyLocalMachine => self.local_machine = !self.local_machine,
            Root::HkeyUsers => self.users = !self.users,
            Root::HkeyCurrentConfig => self.current_config = !self.current_config,
        }
        assert(self@ =~= toggled(before, *root));
    }
}

/// The list holds each root key once, at the place that its number gives, and
/// reading that number finds the key again.
pub proof fn law_numbers_name_roots(root: Root)
    ensures
        all_roots().no_duplicates(),
        root.number() < all_roots().len(),
        all_roots()[root.number() as int] == root,
        forall|i: int| 0 <= i < all_roots().len() ==> (#[trigger] all_roots()[i]).number() == i,
{
}

/// Turning the choice on one root key round changes that choice and no other,
/// and doing it twice changes nothing.
pub proof fn law_toggle_is_its_own_inverse(selected: Set<Root>, root: Root, other: Root)
    ensures
        toggled(selected, root).contains(root) == !selected.contains(root),
        other != root ==> toggled(selected, root).contains(other) == selected.contains(other),
        toggled(toggled(selected, root), root) == selected,
{
    assert(toggled(toggled(selected, root), root) =~= selected);
}

/// Whether each root key of `roots` has a higher number than those before it.
pub open spec fn ascending(roots: Seq<Root>) -> bool {
    forall|i: int, j: int|
        0 <= i < j < roots.len() ==> (#[trigger] roots[i]).number() < (
        #[trigger] roots[j]).number()
}

proof fn lemma_filter_keeps_order(roots: Seq<Root>, chosen: spec_fn(Root) -> bool)
    requires
        ascending(roots),
    ensures
        ascending(roots.filter(chosen)),
    decreases roots.len(),
{
    reveal(Seq::filter);
    if roots.len() > 0 {
        let rest = roots.drop_last();
        lemma_filter_keeps_order(rest, chosen);
        assert forall|i: int| 0 <= i < rest.filter(chosen).len() implies (
        #[trigger] rest.filter(chosen)[i]).number() < roots.last().number() by {
            let root = rest.filter(chosen)[i];
            assert(rest.filter(chosen).contains(root));
            rest.lemma_filter_contains_rev(chosen, root);
            let k = rest.index_of(root);
            assert(roots[k] == root);
        }
    }
}

/// The exported list holds exactly the selected root keys, none of them twice,
/// and in the order of the list of all of them.
pub proof fn law_export_lists_the_selected(selected: Set<Root>)
    ensures
        ({
            let exported = all_roots().filter(|root: Root| selected.contains(root));
            &&& exported.to_set() == selected
            &&& exported.no_duplicates()
            &&& ascending(exported)
        }),
{
    let chosen = |root: Root| selected.contains(root);
    let exported = all_roots().filter(chosen);
    lemma_filter_keeps_order(all_roots(), chosen);
    broadcast use vstd::seq_lib::group_filter_ensures;

    assert(exported.no_duplicates()) by {
        assert forall|i: int, j: int| 0 <= i < j < exported.len() implies exported[i]
            != exported[j] by {
            assert(exported[i].number() < exported[j].number());
        }
    }
    assert forall|root: Root| selected.contains(root) implies exported.contains(root) by {
        assert(all_roots()[root.number() as int] == root);
    }
    assert(exported.to_set() =~= selected);
}

/// The five root keys have the numbers from 0 to 4.
pub proof fn law_roots_are_numbered_from_zero()
    ensures
        all_roots().len() == 5,
        Root::HkeyClassesRoot.number() == 0,
        Root::HkeyCurrentUser.number() == 1,
        Root::HkeyLocalMachine.number() == 2,
        Root::HkeyUsers.number() == 3,
        Root::HkeyCurrentConfig.number() == 4,
{
}

/// Each root key is called as the registry calls it.
pub proof fn law_roots_have_their_registry_names(root: Root)
    ensures
        root is HkeyClassesRoot ==> root.label() == "HKEY_CLASSES_ROOT"@,
        root is HkeyCurrentUser ==> root.label() == "HKEY_CURRENT_USER"@,
        root is HkeyLocalMachine ==> root.label() == "HKEY_LOCAL_MACHINE"@,
        root is HkeyUsers ==> root.label() == "HKEY_USERS"@,
        root is HkeyCurrentConfig ==> root.label() == "HKEY_CURRENT_CONFIG"@,
        root.label().len() < 25,
{
    reveal_strlit("HKEY_CLASSES_ROOT");
    reveal_strlit("HKEY_CURRENT_USER");
    reveal_strlit("HKEY_LOCAL_MACHINE");
    reveal_strlit("HKEY_USERS");
    reveal_strlit("HKEY_CURRENT_CONFIG");
}

} // verus!
