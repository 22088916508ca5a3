//! The command registry: the mapping from lookup names (primary names and
//! aliases) to command instances, with bulk registration of packages under a
//! namespace prefix.

use vstd::prelude::*;
use vstd::string::*;

use crate::command::{Command, CommandView};
use crate::strmap::StringMap;

verus! {

/// The lookup names one registration binds: the command's primary name and
/// each of its aliases.
pub open spec fn binding_names(c: CommandView) -> Set<Seq<char>> {
    Set::new(|k: Seq<char>| k == c.name || c.aliases.contains(k))
}

/// The registry mapping after registering `c` into `m`: every lookup name of
/// `c` is bound to `c`, deliberately overwriting any earlier binding
/// (last registration wins); every other binding is untouched.
pub open spec fn spec_register(
    m: Map<Seq<char>, CommandView>,
    c: CommandView,
) -> Map<Seq<char>, CommandView> {
    Map::new(
        |k: Seq<char>| m.dom().contains(k) || binding_names(c).contains(k),
        |k: Seq<char>|
            if binding_names(c).contains(k) {
                c
            } else {
                m[k]
            },
    )
}

/// The namespaced name a package prefix gives a command: the name itself for
/// the empty prefix, otherwise the prefix, a double colon, and the name.
pub open spec fn namespaced(package: Seq<char>, name: Seq<char>) -> Seq<char> {
    if package.len() == 0 {
        name
    } else {
        package + "::"@ + name
    }
}

/// The command as a package registers it: its primary name carries the
/// package prefix, while its aliases stay as declared.
pub open spec fn with_package(c: CommandView, package: Seq<char>) -> CommandView {
    CommandView { name: namespaced(package, c.name), ..c }
}

/// The registry mapping after registering the commands `cs[i ..]` of a
/// package, in order, each under the package prefix.
pub open spec fn spec_register_package_from(
    m: Map<Seq<char>, CommandView>,
    package: Seq<char>,
    cs: Seq<CommandView>,
    i: int,
) -> Map<Seq<char>, CommandView>
    decreases cs.len() - i,
{
    if i < 0 || i >= cs.len() {
        m
    } else {
        spec_register_package_from(
            spec_register(m, with_package(cs[i], package)),
            package,
            cs,
            i + 1,
        )
    }
}

/// The mapping from lookup name to command instance. Commands are value
/// objects: `resolve` hands out a fresh clone per dispatch, keeping the
/// registry's template intact.
pub struct Registry {
    map: StringMap<Command>,
}

impl View for Registry {
    type V = Map<Seq<char>, CommandView>;

    closed spec fn view(&self) -> Map<Seq<char>, CommandView> {
        self.map@
    }
}

impl Registry {
    pub closed spec fn wf(&self) -> bool {
        self.map.wf()
    }

    /// Creates an empty registry.
    pub fn new() -> (r: Registry)
        ensures
            r.wf(),
            r@ == Map::<Seq<char>, CommandView>::empty(),
    {
        Registry { map: StringMap::new() }
    }

    /// Registers `command` under its primary name and every alias,
    /// overwriting prior bindings: the last registration wins.
    pub fn register(&mut self, command: Command)
        requires
            old(self).wf(),
        ensures
            final(self).wf(),
            final(self)@ == spec_register(old(self)@, command@),
    {
        let ghost c = command@;
        let ghost m0 = self@;
        let aliases = command.aliases();
        let name = command.name();
        self.map.insert(name, command.clone());
        let mut i: usize = 0;
        while i < aliases.len()
            invariant
                self.map.wf(),
                i <= aliases@.len(),
                aliases.deep_view() == c.aliases,
                aliases.deep_view().len() == aliases@.len(),
                command@ == c,
                forall|k: Seq<char>|
                    #![all_triggers]
                    (k == c.name || c.aliases.subrange(0, i as int).contains(k)) ==> (
                    self.map@.dom().contains(k) && self.map@[k] == c),
                forall|k: Seq<char>|
                    #![all_triggers]
                    (k != c.name && !c.aliases.subrange(0, i as int).contains(k)) ==> (
                    self.map@.dom().contains(k) == m0.dom().contains(k) && (m0.dom().contains(k)
                        ==> self.map@[k] == m0[k])),
            decreases aliases@.len() - i,
        {
            proof {
                assert(aliases.deep_view()[i as int] == aliases@[i as int]@);
            }
            let ghost mp = self.map@;
            let ghost key = aliases@[i as int]@;
            self.map.insert(aliases[i].clone(), command.clone());
            proof {
                assert(self.map@ == mp.insert(key, c));
                let pre = c.aliases.subrange(0, i as int);
                let cur = c.aliases.subrange(0, i as int + 1);
                assert(cur[i as int] == key);
                assert(cur.contains(key));
                assert forall|k: Seq<char>| cur.contains(k) && k != key implies pre.contains(
                    k,
                ) by {
                    let x = choose|x: int| 0 <= x < cur.len() && cur[x] == k;
                    assert(x != i as int);
                    assert(pre[x] == k);
                }
                assert forall|k: Seq<char>| pre.contains(k) implies cur.contains(k) by {
                    let x = choose|x: int| 0 <= x < pre.len() && pre[x] == k;
                    assert(cur[x] == k);
                }
                assert forall|k: Seq<char>| (k == c.name || cur.contains(k)) implies (
                self.map@.dom().contains(k) && self.map@[k] == c) by {
                    if k != key {
                        assert(k == c.name || pre.contains(k));
                        assert(mp.dom().contains(k) && mp[k] == c);
                    }
                }
                assert forall|k: Seq<char>| (k != c.name && !cur.contains(k)) implies (
                self.map@.dom().contains(k) == m0.dom().contains(k) && (m0.dom().contains(k)
                    ==> self.map@[k] == m0[k])) by {
                    assert(k != key);
                    assert(!pre.contains(k));
                    assert(mp.dom().contains(k) == m0.dom().contains(k));
                }
            }
            i = i + 1;
        }
        proof {
            assert(c.aliases.subrange(0, c.aliases.len() as int) =~= c.aliases);
            assert forall|k: Seq<char>| #![all_triggers] true implies (self@.dom().contains(k) == (
            m0.dom().contains(k) || binding_names(c).contains(k)) && (self@.dom().contains(k)
                ==> self@[k] == (if binding_names(c).contains(k) {
                c
            } else {
                m0[k]
            }))) by {
                if k == c.name || c.aliases.contains(k) {
                    assert(self.map@.dom().contains(k) && self.map@[k] == c);
                    assert(binding_names(c).contains(k));
                } else {
                    assert(self.map@.dom().contains(k) == m0.dom().contains(k));
                    assert(!binding_names(c).contains(k));
                }
            }
            assert(self@ =~= spec_register(m0, c));
        }
    }

    /// Resolves a lookup name to a fresh, independently owned clone of the
    /// bound command, ready for invocation, or nothing if the name is
    /// unregistered. Before any re-registration, two resolves of the same
    /// name yield identical commands.
    pub fn resolve(&self, name: &String) -> (r: Option<Command>)
        requires
            self.wf(),
        ensures
            match r {
                Some(c) => self@.dom().contains(name@) && c@ == self@[name@],
                None => !self@.dom().contains(name@),
            },
    {
        match self.map.get(name) {
            Some(c) => Some(c.clone()),
            None => None,
        }
    }

    /// Registers a whole package of related commands, in order, each under
    /// the shared namespace prefix `package` (aliases stay as declared, so a
    /// bundle stays reachable through both its short and its namespaced
    /// names).
    pub fn register_package(&mut self, package: &String, commands: &Vec<Command>)
        requires
            old(self).wf(),
        ensures
            final(self).wf(),
            final(self)@ == spec_register_package_from(
                old(self)@,
                package@,
                commands.deep_view(),
                0,
            ),
    {
        let ghost cs = commands.deep_view();
        let ghost m0 = self@;
        let mut i: usize = 0;
        while i < commands.len()
            invariant
                self.wf(),
                i <= commands@.len(),
                cs == commands.deep_view(),
                cs.len() == commands@.len(),
                spec_register_package_from(m0, package@, cs, 0) == spec_register_package_from(
                    self@,
                    package@,
                    cs,
                    i as int,
                ),
            decreases commands@.len() - i,
        {
            proof {
                assert(cs[i as int] == commands@[i as int]@);
            }
            let renamed = commands[i].with_name(namespaced_name(package, &commands[i].name()));
            proof {
                assert(renamed@ == with_package(cs[i as int], package@));
            }
            self.register(renamed);
            i = i + 1;
        }
    }
}

/// The namespaced form of `name` under `package`.
pub fn namespaced_name(package: &String, name: &String) -> (r: String)
    ensures
        r@ == namespaced(package@, name@),
{
    if package.as_str().unicode_len() == 0 {
        proof {
            assert(package@ =~= Seq::<char>::empty());
        }
        name.clone()
    } else {
        let mut r = package.clone();
        r.append("::");
        r.append(name.as_str());
        r
    }
}

/// Law: after a command is registered, every lookup name it was registered
/// under — its primary name and each alias — is bound to exactly that
/// command, so resolving any of them yields an instance whose identity
/// matches the values used at registration.
pub proof fn lemma_registration_identity(
    m: Map<Seq<char>, CommandView>,
    c: CommandView,
    n: Seq<char>,
)
    requires
        binding_names(c).contains(n),
    ensures
        spec_register(m, c).dom().contains(n),
        spec_register(m, c)[n] == c,
{
}

/// Law: when the binding names of two successive registrations overlap, the
/// later registration wins exactly on the overlapping names; a name bound
/// only by the earlier registration keeps the earlier command, and a name
/// bound by neither keeps whatever binding it had before.
pub proof fn lemma_later_registration_wins(
    m: Map<Seq<char>, CommandView>,
    c1: CommandView,
    c2: CommandView,
    n: Seq<char>,
)
    ensures
        binding_names(c2).contains(n) ==> spec_register(spec_register(m, c1), c2)[n] == c2,
        !binding_names(c2).contains(n) && binding_names(c1).contains(n) ==> spec_register(
            spec_register(m, c1),
            c2,
        )[n] == c1,
        !binding_names(c2).contains(n) && !binding_names(c1).contains(n) && m.dom().contains(n)
            ==> spec_register(spec_register(m, c1), c2)[n] == m[n],
{
}

/// Law: registering a bundle member under a package prefix binds both its
/// namespaced primary name and each of its declared aliases to the same
/// command, so an invoker reaches the one implementation through either
/// lookup name.
pub proof fn lemma_package_binds_both_names(
    m: Map<Seq<char>, CommandView>,
    package: Seq<char>,
    c: CommandView,
    n: Seq<char>,
)
    requires
        n == namespaced(package, c.name) || c.aliases.contains(n),
    ensures
        spec_register_package_from(m, package, seq![c], 0).dom().contains(n),
        spec_register_package_from(m, package, seq![c], 0)[n] == with_package(c, package),
{
    let prefixed = with_package(c, package);
    assert(seq![c][0] == c);
    assert(spec_register_package_from(spec_register(m, prefixed), package, seq![c], 1)
        == spec_register(m, prefixed));
    assert(spec_register_package_from(m, package, seq![c], 0) == spec_register(m, prefixed));
    assert(binding_names(prefixed).contains(n));
    lemma_registration_identity(m, prefixed, n);
}

} // verus!

