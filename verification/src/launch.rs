//! The data a newly launched tool inherits from the window the launcher was
//! invoked on: an environment, a working directory, and which application the
//! data came from.

use vstd::prelude::*;
use vstd::string::StringExecFns;

use crate::error::Error;
use crate::vim::Vim;

verus! {

/// Which application the launching data was taken from.
pub enum Application {
    /// No usable source window.
    Absent,
    /// A live editor session.
    Vim(Vim),
    /// A terminal connection.
    Kitty(KittyConn),
}

/// Identity of a terminal connection; the live socket is owned outside the
/// library.
#[derive(Debug, Clone, Copy, PartialEq, Eq, Structural)]
pub struct KittyConn {
    /// The process id the connection belongs to.
    pub pid: i32,
}

/// The application class a launch can take its data from.
#[derive(Debug, Clone, Copy, PartialEq, Eq, Structural)]
pub enum LaunchSource {
    /// A terminal window.
    Kitty,
    /// An editor window.
    Neovide,
}

/// The environment as a mapping, with later assignments overriding earlier
/// ones.
pub open spec fn env_map_of(env: Seq<(String, String)>) -> Map<Seq<char>, Seq<char>>
    decreases env.len(),
{
    if env.len() == 0 {
        Map::empty()
    } else {
        env_map_of(env.drop_last()).insert(env.last().0@, env.last().1@)
    }
}

/// The names of a sequence of assignments are pairwise distinct.
pub open spec fn env_keys_distinct(env: Seq<(String, String)>) -> bool {
    forall|a: int, b: int|
        0 <= a < b < env.len() ==> (#[trigger] env[a]).0@ != (#[trigger] env[b]).0@
}

/// A name that appears nowhere in the assignments is not in the mapping.
proof fn lemma_env_not_in_dom(env: Seq<(String, String)>, k: Seq<char>)
    requires
        forall|a: int| 0 <= a < env.len() ==> (#[trigger] env[a]).0@ != k,
    ensures
        !env_map_of(env).dom().contains(k),
    decreases env.len(),
{
    if env.len() > 0 {
        assert(forall|a: int|
            0 <= a < env.drop_last().len() ==> (#[trigger] env.drop_last()[a]).0@ != k);
        lemma_env_not_in_dom(env.drop_last(), k);
    }
}

/// Removing the one assignment of a name removes that name from the mapping.
proof fn lemma_env_remove(env: Seq<(String, String)>, i: int)
    requires
        0 <= i < env.len(),
        env_keys_distinct(env),
    ensures
        env_map_of(env.remove(i)) =~= env_map_of(env).remove(env[i].0@),
    decreases env.len(),
{
    let k = env[i].0@;
    if i == env.len() - 1 {
        assert(env.remove(i) =~= env.drop_last());
        assert forall|a: int| 0 <= a < env.drop_last().len() implies (#[trigger] env.drop_last()[
            a
        ]).0@ != k by {
            assert(env[a] == env.drop_last()[a]);
        }
        lemma_env_not_in_dom(env.drop_last(), k);
        assert(env_map_of(env) == env_map_of(env.drop_last()).insert(k, env[i].1@));
        assert(env_map_of(env).remove(k) =~= env_map_of(env.drop_last()));
    } else {
        let shorter = env.drop_last();
        assert(env.remove(i).drop_last() =~= shorter.remove(i));
        assert(env.remove(i).last() == env.last());
        assert(env_keys_distinct(shorter));
        assert(shorter[i] == env[i]);
        lemma_env_remove(shorter, i);
        assert(env_map_of(env.remove(i)) == env_map_of(shorter.remove(i)).insert(
            env.last().0@,
            env.last().1@,
        ));
        assert(env.last().0@ != k);
        assert(env_map_of(env.remove(i)) =~= env_map_of(env).remove(k));
    }
}

/// The mapping after a sequence of further assignments, applied first to
/// last.
pub open spec fn env_map_add_all(
    m: Map<Seq<char>, Seq<char>>,
    more: Seq<(String, String)>,
) -> Map<Seq<char>, Seq<char>>
    decreases more.len(),
{
    if more.len() == 0 {
        m
    } else {
        env_map_add_all(m.insert(more[0].0@, more[0].1@), more.drop_first())
    }
}

/// What a launched tool inherits: environment assignments, a working
/// directory, and the application the data came from.
pub struct LaunchingData {
    /// The environment, as name and value pairs with distinct names.
    pub env: Vec<(String, String)>,
    /// The working directory, if one is known.
    pub cwd: Option<String>,
    /// The application the data came from.
    pub application: Application,
}

impl Default for LaunchingData {
    /// Fresh launching data: no environment, no directory, no source.
    fn default() -> (r: LaunchingData)
        ensures
            r.env@.len() == 0,
            r.cwd is None,
            r.application is Absent,
    {
        LaunchingData { env: Vec::new(), cwd: None, application: Application::Absent }
    }
}

impl LaunchingData {
    /// The environment names are distinct, so the pair list is an exact
    /// representation of the mapping.
    pub open spec fn wf(self) -> bool {
        env_keys_distinct(self.env@)
    }

    /// The environment as a mapping.
    pub open spec fn env_map(self) -> Map<Seq<char>, Seq<char>> {
        env_map_of(self.env@)
    }

    /// Forget the working directory.
    pub fn clear_cwd(self) -> (r: Self)
        ensures
            r == (LaunchingData { cwd: None, ..self }),
    {
        LaunchingData { cwd: None, ..self }
    }

    /// Use this working directory.
    pub fn set_cwd(self, cwd: String) -> (r: Self)
        ensures
            r == (LaunchingData { cwd: Some(cwd), ..self }),
    {
        LaunchingData { cwd: Some(cwd), ..self }
    }

    /// Use this working directory, or none.
    pub fn maybe_cwd(self, cwd: Option<String>) -> (r: Self)
        ensures
            r == (LaunchingData { cwd: cwd, ..self }),
    {
        LaunchingData { cwd, ..self }
    }

    /// Forget the whole environment.
    pub fn clear_env(self) -> (r: Self)
        ensures
            r.env@.len() == 0,
            r.env_map() =~= Map::<Seq<char>, Seq<char>>::empty(),
            r.cwd == self.cwd,
            r.application == self.application,
            r.wf(),
    {
        let mut data = self;
        data.env = Vec::new();
        data
    }

    /// Add one assignment, overriding any earlier assignment of the name.
    pub fn add_env(self, k: String, v: String) -> (r: Self)
        requires
            self.wf(),
        ensures
            r.env_map() == self.env_map().insert(k@, v@),
            r.cwd == self.cwd,
            r.application == self.application,
            r.wf(),
    {
        let mut data = self;
        let n = data.env.len();
        let mut i: usize = 0;
        let mut found: Option<usize> = None;
        while i < n
            invariant
                i <= n,
                n == data.env@.len(),
                match found {
                    Some(f) => f < i && data.env@[f as int].0@ == k@,
                    None => forall|a: int| 0 <= a < i ==> (#[trigger] data.env@[a]).0@ != k@,
                },
            decreases n - i,
        {
            if found.is_none() {
                if data.env[i].0 == k {
                    found = Some(i);
                }
            }
            i = i + 1;
        }
        let ghost before = data.env@;
        match found {
            Some(f) => {
                data.env.remove(f);
                proof {
                    lemma_env_remove(before, f as int);
                    assert forall|a: int, b: int|
                        0 <= a < b < data.env@.len() implies (#[trigger] data.env@[a]).0@ != (
                    #[trigger] data.env@[b]).0@ by {
                        if b < f {
                            assert(data.env@[a] == before[a] && data.env@[b] == before[b]);
                        } else if a < f {
                            assert(data.env@[a] == before[a] && data.env@[b] == before[b + 1]);
                        } else {
                            assert(data.env@[a] == before[a + 1] && data.env@[b] == before[b + 1]);
                        }
                    }
                }
            },
            None => {
                proof {
                    lemma_env_not_in_dom(before, k@);
                    assert(env_map_of(before).remove(k@) =~= env_map_of(before));
                }
            },
        }
        let ghost kept = data.env@;
        proof {
            assert(!env_map_of(kept).dom().contains(k@)) by {
                match found {
                    Some(f) => {},
                    None => {},
                }
            }
        }
        data.env.push((k, v));
        proof {
            assert(data.env@.drop_last() =~= kept);
            assert(data.env@.last() == (k, v));
            assert(env_map_of(data.env@) == env_map_of(kept).insert(k@, v@));
            assert(env_map_of(data.env@) =~= env_map_of(before).insert(k@, v@));
            assert forall|a: int, b: int|
                0 <= a < b < data.env@.len() implies (#[trigger] data.env@[a]).0@ != (
            #[trigger] data.env@[b]).0@ by {
                if b == data.env@.len() - 1 {
                    assert(data.env@[a] == kept[a]);
                    assert(forall|c: int| 0 <= c < kept.len() ==> (#[trigger] kept[c]).0@ != k@);
                } else {
                    assert(data.env@[a] == kept[a] && data.env@[b] == kept[b]);
                }
            }
        }
        data
    }

    /// Replace the whole environment by one assignment.
    pub fn set_env(self, k: String, v: String) -> (r: Self)
        ensures
            r.env_map() =~= Map::<Seq<char>, Seq<char>>::empty().insert(k@, v@),
            r.cwd == self.cwd,
            r.application == self.application,
            r.wf(),
    {
        self.clear_env().add_env(k, v)
    }

    /// Add many assignments, first to last, each overriding any earlier
    /// assignment of its name.
    pub fn add_envs(self, more: Vec<(String, String)>) -> (r: Self)
        requires
            self.wf(),
        ensures
            r.env_map() == env_map_add_all(self.env_map(), more@),
            r.cwd == self.cwd,
            r.application == self.application,
            r.wf(),
    {
        let ghost all = more@;
        let n = more.len();
        let mut rest = more;
        let mut data = self;
        let mut i: usize = 0;
        proof {
            assert(all.subrange(0, n as int) =~= all);
        }
        while i < n
            invariant
                i <= n,
                all.len() == n,
                rest@ =~= all.subrange(i as int, n as int),
                data.wf(),
                data.cwd == self.cwd,
                data.application == self.application,
                env_map_add_all(data.env_map(), rest@) == env_map_add_all(self.env_map(), all),
            decreases n - i,
        {
            let ghost rest0 = rest@;
            let (k, v) = rest.remove(0);
            proof {
                assert(rest@ =~= rest0.drop_first());
                assert(rest@ =~= all.subrange(i as int + 1, n as int));
                assert(rest0[0] == all[i as int]);
            }
            data = data.add_env(k, v);
            i = i + 1;
        }
        data
    }

    /// Replace the whole environment by these assignments.
    pub fn set_envs(self, more: Vec<(String, String)>) -> (r: Self)
        ensures
            r.env_map() == env_map_add_all(Map::empty(), more@),
            r.cwd == self.cwd,
            r.application == self.application,
            r.wf(),
    {
        let cleared = self.clear_env();
        proof {
            assert(cleared.env_map() == Map::<Seq<char>, Seq<char>>::empty());
        }
        cleared.add_envs(more)
    }

    /// Record the editor session the data came from.
    pub fn set_vim(self, vim: Vim) -> (r: Self)
        ensures
            r.env == self.env,
            r.cwd == self.cwd,
            r.application == Application::Vim(vim),
    {
        LaunchingData { application: Application::Vim(vim), ..self }
    }

    /// The editor session the data came from, if any.
    pub fn get_vim(&self) -> (r: Option<&Vim>)
        ensures
            match self.application {
                Application::Vim(v) => r matches Some(rv) && *rv == v,
                _ => r is None,
            },
    {
        match &self.application {
            Application::Vim(v) => Some(v),
            _ => None,
        }
    }

    /// Record the terminal connection the data came from.
    pub fn set_kitty(self, kitty: KittyConn) -> (r: Self)
        ensures
            r.env == self.env,
            r.cwd == self.cwd,
            r.application == Application::Kitty(kitty),
    {
        LaunchingData { application: Application::Kitty(kitty), ..self }
    }

    /// The terminal connection the data came from, if any.
    pub fn get_kitty(&self) -> (r: Option<&KittyConn>)
        ensures
            match self.application {
                Application::Kitty(c) => r matches Some(rc) && *rc == c,
                _ => r is None,
            },
    {
        match &self.application {
            Application::Kitty(c) => Some(c),
            _ => None,
        }
    }
}

/// Which application class the focused window's launching data can be taken
/// from, or the exact error: no class at all, or a class with no rule.
pub fn classify_window_class(app_id: &Option<String>) -> (r: Result<LaunchSource, Error>)
    ensures
        match app_id {
            None => r == Err::<LaunchSource, Error>(Error::WindowHasNoClass),
            Some(class) => if class@ == "kitty"@ {
                r == Ok::<LaunchSource, Error>(LaunchSource::Kitty)
            } else if class@ == "neovide"@ {
                r == Ok::<LaunchSource, Error>(LaunchSource::Neovide)
            } else {
                r == Err::<LaunchSource, Error>(Error::UnsupportedClass)
            },
        },
{
    let class = match app_id {
        Some(class) => class,
        None => {
            return Err(Error::WindowHasNoClass);
        },
    };
    let kitty = String::from_str("kitty");
    let neovide = String::from_str("neovide");
    if *class == kitty {
        Ok(LaunchSource::Kitty)
    } else if *class == neovide {
        Ok(LaunchSource::Neovide)
    } else {
        Err(Error::UnsupportedClass)
    }
}

/// Split one `NAME=value` environment record at its first `=` byte; a record
/// without one carries no assignment.
pub fn split_env_assignment(line: &Vec<u8>) -> (r: Option<(Vec<u8>, Vec<u8>)>)
    ensures
        match r {
            Some(parts) => exists|i: int|
                {
                    &&& 0 <= i < line@.len()
                    &&& line@[i] == 61u8
                    &&& (forall|j: int| 0 <= j < i ==> line@[j] != 61u8)
                    &&& parts.0@ == line@.subrange(0, i)
                    &&& parts.1@ == line@.subrange(i + 1, line@.len() as int)
                },
            None => forall|j: int| 0 <= j < line@.len() ==> line@[j] != 61u8,
        },
{
    let n = line.len();
    let mut i: usize = 0;
    while i < n
        invariant
            i <= n,
            n == line.len(),
            forall|j: int| 0 <= j < i ==> line@[j] != 61u8,
        decreases n - i,
    {
        if line[i] == 61u8 {
            let mut name: Vec<u8> = Vec::new();
            let mut value: Vec<u8> = Vec::new();
            let mut a: usize = 0;
            while a < i
                invariant
                    a <= i,
                    i < n,
                    n == line.len(),
                    name@ =~= line@.subrange(0, a as int),
                decreases i - a,
            {
                name.push(line[a]);
                proof {
                    assert(name@ =~= line@.subrange(0, a as int + 1));
                }
                a = a + 1;
            }
            let mut b: usize = i + 1;
            while b < n
                invariant
                    i < b <= n,
                    n == line.len(),
                    value@ =~= line@.subrange(i as int + 1, b as int),
                decreases n - b,
            {
                value.push(line[b]);
                proof {
                    assert(value@ =~= line@.subrange(i as int + 1, b as int + 1));
                }
                b = b + 1;
            }
            return Some((name, value));
        }
        i = i + 1;
    }
    None
}

} // verus!
