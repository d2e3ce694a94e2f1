//! What to launch in a pane: program and arguments, working directory and
//! extra environment. Texts of the operating system are byte strings, as Unix
//! has them.

use vstd::prelude::*;

verus! {

/// `std::str::from_utf8`: the text of bytes that are well-formed UTF-8, and
/// nothing for any others.
#[verifier::external_body]
fn decode_utf8(bytes: &[u8]) -> (r: Option<String>)
    ensures
        r is Some <==> vstd::utf8::valid_utf8(bytes@),
        r is Some ==> r->0@ == vstd::utf8::decode_utf8(bytes@),
{
    std::str::from_utf8(bytes).ok().map(str::to_owned)
}

/// The text of bytes that are well-formed UTF-8.
pub fn utf8_text(bytes: &Vec<u8>) -> (r: Option<String>)
    ensures
        match r {
            Some(t) => vstd::utf8::valid_utf8(bytes@) && t@ == vstd::utf8::decode_utf8(bytes@),
            None => !vstd::utf8::valid_utf8(bytes@),
        },
{
    decode_utf8(bytes.as_slice())
}

/// The byte-wise dictionary order.
pub open spec fn bytes_less(a: Seq<u8>, b: Seq<u8>) -> bool
    decreases a.len(),
{
    if b.len() == 0 {
        false
    } else if a.len() == 0 {
        true
    } else if a[0] != b[0] {
        a[0] < b[0]
    } else {
        bytes_less(a.skip(1), b.skip(1))
    }
}

proof fn less_is_strict(a: Seq<u8>)
    ensures
        !bytes_less(a, a),
    decreases a.len(),
{
    if a.len() > 0 {
        less_is_strict(a.skip(1));
    }
}

proof fn less_is_transitive(a: Seq<u8>, b: Seq<u8>, c: Seq<u8>)
    requires
        bytes_less(a, b),
        bytes_less(b, c),
    ensures
        bytes_less(a, c),
    decreases a.len(),
{
    if a.len() > 0 && a[0] == b[0] && b[0] == c[0] {
        less_is_transitive(a.skip(1), b.skip(1), c.skip(1));
    }
}

proof fn less_is_total(a: Seq<u8>, b: Seq<u8>)
    ensures
        bytes_less(a, b) || bytes_less(b, a) || a == b,
    decreases a.len(),
{
    if a.len() > 0 && b.len() > 0 {
        if a[0] == b[0] {
            less_is_total(a.skip(1), b.skip(1));
            if a.skip(1) == b.skip(1) {
                assert(a =~= seq![a[0]] + a.skip(1));
                assert(b =~= seq![b[0]] + b.skip(1));
            }
        }
    } else if a.len() == 0 && b.len() == 0 {
        assert(a =~= b);
    }
}

fn is_less(a: &Vec<u8>, b: &Vec<u8>) -> (r: bool)
    ensures
        r == bytes_less(a@, b@),
{
    let mut i: usize = 0;
    assert(a@.skip(0) =~= a@);
    assert(b@.skip(0) =~= b@);
    while i < a.len() && i < b.len()
        invariant
            i <= a.len(),
            i <= b.len(),
            bytes_less(a@, b@) == bytes_less(a@.skip(i as int), b@.skip(i as int)),
        decreases a.len() - i,
    {
        if a[i] != b[i] {
            return a[i] < b[i];
        }
        assert(a@.skip(i as int).skip(1) =~= a@.skip(i + 1));
        assert(b@.skip(i as int).skip(1) =~= b@.skip(i + 1));
        i += 1;
    }
    i < b.len()
}

/// A variable and its value.
pub type EnvView = (Seq<u8>, Seq<u8>);

/// What environment entries hold.
pub open spec fn env_view(env: Seq<(Vec<u8>, Vec<u8>)>) -> Seq<EnvView> {
    env.map_values(|e: (Vec<u8>, Vec<u8>)| (e.0@, e.1@))
}

/// The variables stand in ascending order, each once.
pub open spec fn ascending(env: Seq<EnvView>) -> bool {
    forall|i: int, j: int|
        0 <= i < j < env.len() ==> bytes_less((#[trigger] env[i]).0, (#[trigger] env[j]).0)
}

/// The environment as a map from variable to value.
pub open spec fn env_map(env: Seq<EnvView>) -> Map<Seq<u8>, Seq<u8>>
    decreases env.len(),
{
    if env.len() == 0 {
        Map::empty()
    } else {
        env_map(env.drop_last()).insert(env.last().0, env.last().1)
    }
}

proof fn env_map_entries(env: Seq<EnvView>)
    requires
        ascending(env),
    ensures
        forall|i: int|
            0 <= i < env.len() ==> env_map(env).contains_key((#[trigger] env[i]).0) && env_map(
                env,
            )[env[i].0] == env[i].1,
        forall|k: Seq<u8>| #[trigger]
            env_map(env).contains_key(k) ==> exists|i: int|
                0 <= i < env.len() && (#[trigger] env[i]).0 == k,
    decreases env.len(),
{
    if env.len() > 0 {
        let front = env.drop_last();
        assert forall|i: int, j: int| 0 <= i < j < front.len() implies bytes_less(
            (#[trigger] front[i]).0,
            (#[trigger] front[j]).0,
        ) by {
            assert(front[i] == env[i] && front[j] == env[j]);
        }
        env_map_entries(front);
        assert forall|i: int| 0 <= i < env.len() implies env_map(env).contains_key(
            (#[trigger] env[i]).0,
        ) && env_map(env)[env[i].0] == env[i].1 by {
            if i < front.len() {
                assert(front[i] == env[i]);
                assert(bytes_less(env[i].0, env[env.len() - 1].0));
                less_is_strict(env[i].0);
            }
        }
        assert forall|k: Seq<u8>| #[trigger] env_map(env).contains_key(k) implies exists|i: int|
            0 <= i < env.len() && (#[trigger] env[i]).0 == k by {
            if k == env.last().0 {
                assert(env[env.len() - 1].0 == k);
            } else {
                assert(env_map(front).contains_key(k));
                let i = choose|i: int| 0 <= i < front.len() && (#[trigger] front[i]).0 == k;
                assert(env[i] == front[i]);
            }
        }
    }
}

/// A pane's command.
#[derive(Debug)]
pub struct CommandBuilder {
    /// The program, then its arguments; empty for the user's default shell.
    pub(crate) argv: Vec<Vec<u8>>,
    pub(crate) cwd: Option<Vec<u8>>,
    /// Extra environment, variables ascending, each once.
    pub(crate) env: Vec<(Vec<u8>, Vec<u8>)>,
}

/// What a [`CommandBuilder`] holds.
#[verifier::ext_equal]
pub struct CommandView {
    pub argv: Seq<Seq<u8>>,
    pub cwd: Option<Seq<u8>>,
    pub env: Seq<EnvView>,
}

/// What an argument list holds.
pub open spec fn argv_view(argv: Seq<Vec<u8>>) -> Seq<Seq<u8>> {
    argv.map_values(|a: Vec<u8>| a@)
}

/// What an optional byte string holds.
pub open spec fn bytes_view(b: Option<Vec<u8>>) -> Option<Seq<u8>> {
    match b {
        Some(b) => Some(b@),
        None => None,
    }
}

impl View for CommandBuilder {
    type V = CommandView;

    open(crate) spec fn view(&self) -> CommandView {
        CommandView {
            argv: argv_view(self.argv@),
            cwd: bytes_view(self.cwd),
            env: env_view(self.env@),
        }
    }
}

impl CommandView {
    /// The environment has every variable once, in order.
    pub open spec fn wf(self) -> bool {
        ascending(self.env)
    }

    /// The extra environment.
    pub open spec fn vars(self) -> Map<Seq<u8>, Seq<u8>> {
        env_map(self.env)
    }

    /// `self` is `before` with one variable set.
    pub open spec fn is_with_env(self, before: CommandView, key: Seq<u8>, value: Seq<u8>) -> bool {
        &&& self.argv == before.argv
        &&& self.cwd == before.cwd
        &&& self.vars() == before.vars().insert(key, value)
        &&& self.wf()
    }
}

/// The command for the user's default shell, with nothing set.
pub open spec fn default_command() -> CommandView {
    CommandView { argv: Seq::empty(), cwd: None, env: Seq::empty() }
}

/// The UTF-8 entries of an environment, as texts, in order.
pub open spec fn text_env(env: Seq<EnvView>) -> Seq<(Seq<char>, Seq<char>)>
    decreases env.len(),
{
    if env.len() == 0 {
        Seq::empty()
    } else {
        let before = text_env(env.drop_last());
        let (k, v) = env.last();
        if vstd::utf8::valid_utf8(k) && vstd::utf8::valid_utf8(v) {
            before.push((vstd::utf8::decode_utf8(k), vstd::utf8::decode_utf8(v)))
        } else {
            before
        }
    }
}

/// What a list of text pairs holds.
pub open spec fn pairs_view(pairs: Seq<(String, String)>) -> Seq<(Seq<char>, Seq<char>)> {
    pairs.map_values(|p: (String, String)| (p.0@, p.1@))
}

impl Default for CommandBuilder {
    /// The user's default shell.
    fn default() -> (r: Self)
        ensures
            r@ == default_command(),
            r@.wf(),
    {
        CommandBuilder::new_default_prog()
    }
}

impl Clone for CommandBuilder {
    fn clone(&self) -> (r: Self)
        ensures
            r@ == self@,
    {
        let mut argv: Vec<Vec<u8>> = Vec::new();
        while argv.len() < self.argv.len()
            invariant
                argv.len() <= self.argv.len(),
                argv_view(argv@) == self@.argv.take(argv.len() as int),
            decreases self.argv.len() - argv.len(),
        {
            let ghost before = argv@;
            argv.push(vstd::slice::slice_to_vec(self.argv[argv.len()].as_slice()));
            assert(argv_view(argv@) =~= argv_view(before).push(self@.argv[before.len() as int]));
        }
        assert(argv_view(argv@) =~= self@.argv);
        let cwd = match &self.cwd {
            Some(cwd) => Some(vstd::slice::slice_to_vec(cwd.as_slice())),
            None => None,
        };
        let mut env: Vec<(Vec<u8>, Vec<u8>)> = Vec::new();
        while env.len() < self.env.len()
            invariant
                env.len() <= self.env.len(),
                env_view(env@) == self@.env.take(env.len() as int),
            decreases self.env.len() - env.len(),
        {
            let ghost before = env@;
            let i = env.len();
            env.push(
                (
                    vstd::slice::slice_to_vec(self.env[i].0.as_slice()),
                    vstd::slice::slice_to_vec(self.env[i].1.as_slice()),
                ),
            );
            assert(env_view(env@) =~= env_view(before).push(self@.env[before.len() as int]));
        }
        assert(env_view(env@) =~= self@.env);
        CommandBuilder { argv, cwd, env }
    }
}

impl CommandBuilder {
    /// A program without arguments.
    pub fn new(program: &[u8]) -> (r: Self)
        ensures
            r@ == (CommandView { argv: seq![program@], ..default_command() }),
            r@.wf(),
    {
        let mut argv: Vec<Vec<u8>> = Vec::new();
        argv.push(vstd::slice::slice_to_vec(program));
        let r = CommandBuilder { argv, cwd: None, env: Vec::new() };
        assert(r@.argv =~= seq![program@]);
        assert(r@.env =~= Seq::<EnvView>::empty());
        r
    }

    /// The user's default shell, which the spawning side takes from the `SHELL`
    /// variable.
    pub fn new_default_prog() -> (r: Self)
        ensures
            r@ == default_command(),
            r@.wf(),
    {
        let r = CommandBuilder { argv: Vec::new(), cwd: None, env: Vec::new() };
        assert(r@.argv =~= Seq::<Seq<u8>>::empty());
        assert(r@.env =~= Seq::<EnvView>::empty());
        r
    }

    /// Whether this is the user's default shell.
    pub fn is_default_prog(&self) -> (r: bool)
        ensures
            r == (self@.argv.len() == 0),
    {
        self.argv.len() == 0
    }

    /// Appends an argument. The default program takes none.
    pub fn arg(&mut self, arg: &[u8])
        requires
            old(self)@.argv.len() > 0,
        ensures
            final(self)@ == (CommandView {
                argv: old(self)@.argv.push(arg@),
                ..old(self)@
            }),
    {
        let ghost before = self@;
        self.argv.push(vstd::slice::slice_to_vec(arg));
        assert(self@.argv =~= before.argv.push(arg@));
    }

    /// Sets the working directory.
    pub fn cwd(&mut self, cwd: &[u8])
        ensures
            final(self)@ == (CommandView { cwd: Some(cwd@), ..old(self)@ }),
    {
        self.cwd = Some(vstd::slice::slice_to_vec(cwd));
    }

    /// Sets a variable.
    pub fn env(&mut self, key: &[u8], value: &[u8])
        requires
            old(self)@.wf(),
        ensures
            final(self)@.is_with_env(old(self)@, key@, value@),
    {
        let ghost before = self@;
        let key = vstd::slice::slice_to_vec(key);
        let value = vstd::slice::slice_to_vec(value);
        let mut i: usize = 0;
        while i < self.env.len() && is_less(&self.env[i].0, &key)
            invariant
                i <= self.env.len(),
                self@ == before,
                forall|j: int| 0 <= j < i ==> bytes_less((#[trigger] before.env[j]).0, key@),
            decreases self.env.len() - i,
        {
            assert(before.env[i as int].0 == self.env@[i as int].0@);
            i += 1;
        }
        proof {
            if i < self.env.len() {
                assert(before.env[i as int].0 == self.env@[i as int].0@);
            }
        }
        if i < self.env.len() && !is_less(&key, &self.env[i].0) {
            proof {
                less_is_total(key@, before.env[i as int].0);
            }
            self.env.set(i, (key, value));
            assert(self@.env =~= before.env.update(i as int, (key@, value@)));
            proof {
                replaced_entry(before.env, i as int, key@, value@);
            }
        } else {
            self.env.insert(i, (key, value));
            assert(self@.env =~= before.env.insert(i as int, (key@, value@)));
            proof {
                inserted_entry(before.env, i as int, key@, value@);
            }
        }
    }

    /// The program and its arguments.
    pub fn get_argv(&self) -> (r: &Vec<Vec<u8>>)
        ensures
            argv_view(r@) == self@.argv,
    {
        &self.argv
    }

    /// The working directory.
    pub fn get_cwd(&self) -> (r: Option<&Vec<u8>>)
        ensures
            match r {
                Some(cwd) => self@.cwd == Some(cwd@),
                None => self@.cwd is None,
            },
    {
        self.cwd.as_ref()
    }

    /// The value of a variable.
    pub fn get_env(&self, key: &[u8]) -> (r: Option<&Vec<u8>>)
        requires
            self@.wf(),
        ensures
            match r {
                Some(v) => self@.vars().contains_key(key@) && self@.vars()[key@] == v@,
                None => !self@.vars().contains_key(key@),
            },
    {
        let wanted = vstd::slice::slice_to_vec(key);
        proof {
            env_map_entries(self@.env);
        }
        let mut i: usize = 0;
        while i < self.env.len()
            invariant
                i <= self.env.len(),
                wanted@ == key@,
                forall|k: int|
                    0 <= k < self@.env.len() ==> self@.vars().contains_key(
                        (#[trigger] self@.env[k]).0,
                    ) && self@.vars()[self@.env[k].0] == self@.env[k].1,
                forall|j: int| 0 <= j < i ==> (#[trigger] self@.env[j]).0 != key@,
            decreases self.env.len() - i,
        {
            let ghost entry = self@.env[i as int];
            assert(entry == (self.env@[i as int].0@, self.env@[i as int].1@));
            if !is_less(&self.env[i].0, &wanted) && !is_less(&wanted, &self.env[i].0) {
                proof {
                    less_is_total(entry.0, key@);
                    assert(self@.vars()[self@.env[i as int].0] == entry.1);
                }
                return Some(&self.env[i].1);
            }
            proof {
                less_is_strict(key@);
            }
            i += 1;
        }
        None
    }

    /// The extra environment as texts, in order. Entries that are not UTF-8 are
    /// left out: the protocol carries texts.
    pub fn iter_extra_env_as_str(&self) -> (r: Vec<(String, String)>)
        ensures
            pairs_view(r@) == text_env(self@.env),
    {
        let mut out: Vec<(String, String)> = Vec::new();
        let mut i: usize = 0;
        assert(self@.env.take(0) =~= Seq::<EnvView>::empty());
        assert(pairs_view(out@) =~= Seq::<(Seq<char>, Seq<char>)>::empty());
        while i < self.env.len()
            invariant
                i <= self.env.len(),
                pairs_view(out@) == text_env(self@.env.take(i as int)),
            decreases self.env.len() - i,
        {
            let ghost before = out@;
            assert(self@.env.take(i + 1).drop_last() =~= self@.env.take(i as int));
            assert(self@.env.take(i + 1).last() == (
                self.env@[i as int].0@,
                self.env@[i as int].1@,
            ));
            match (utf8_text(&self.env[i].0), utf8_text(&self.env[i].1)) {
                (Some(k), Some(v)) => {
                    out.push((k, v));
                    assert(pairs_view(out@) =~= pairs_view(before).push((k@, v@)));
                },
                _ => {},
            }
            i += 1;
        }
        assert(self@.env.take(i as int) =~= self@.env);
        out
    }
}

proof fn replaced_entry(env: Seq<EnvView>, i: int, key: Seq<u8>, value: Seq<u8>)
    requires
        ascending(env),
        0 <= i < env.len(),
        env[i].0 == key,
    ensures
        ascending(env.update(i, (key, value))),
        env_map(env.update(i, (key, value))) == env_map(env).insert(key, value),
{
    let new = env.update(i, (key, value));
    assert forall|a: int, b: int| 0 <= a < b < new.len() implies bytes_less(
        (#[trigger] new[a]).0,
        (#[trigger] new[b]).0,
    ) by {
        assert(bytes_less(env[a].0, env[b].0));
    }
    env_map_entries(env);
    env_map_entries(new);
    let want = env_map(env).insert(key, value);
    assert forall|k: Seq<u8>| #[trigger] env_map(new).contains_key(k) == want.contains_key(k) by {
        if env_map(new).contains_key(k) {
            let j = choose|j: int| 0 <= j < new.len() && (#[trigger] new[j]).0 == k;
            assert(env[j].0 == k);
        }
        if env_map(env).contains_key(k) {
            let j = choose|j: int| 0 <= j < env.len() && (#[trigger] env[j]).0 == k;
            assert(new[j].0 == k);
        }
        assert(new[i].0 == key);
    }
    assert forall|k: Seq<u8>| #[trigger] env_map(new).contains_key(k) implies env_map(new)[k]
        == want[k] by {
        let j = choose|j: int| 0 <= j < new.len() && (#[trigger] new[j]).0 == k;
        if j != i {
            assert(env[j] == new[j]);
            if k == key {
                less_is_strict(key);
                if j < i {
                    assert(bytes_less(env[j].0, env[i].0));
                } else {
                    assert(bytes_less(env[i].0, env[j].0));
                }
            }
        }
    }
    assert(env_map(new) =~= want);
}

proof fn inserted_entry(env: Seq<EnvView>, i: int, key: Seq<u8>, value: Seq<u8>)
    requires
        ascending(env),
        0 <= i <= env.len(),
        forall|j: int| 0 <= j < i ==> bytes_less((#[trigger] env[j]).0, key),
        i < env.len() ==> bytes_less(key, env[i].0),
    ensures
        ascending(env.insert(i, (key, value))),
        env_map(env.insert(i, (key, value))) == env_map(env).insert(key, value),
{
    let new = env.insert(i, (key, value));
    assert forall|a: int, b: int| 0 <= a < b < new.len() implies bytes_less(
        (#[trigger] new[a]).0,
        (#[trigger] new[b]).0,
    ) by {
        let from_a = if a < i {
            a
        } else {
            a - 1
        };
        let from_b = if b < i {
            b
        } else {
            b - 1
        };
        if a == i {
            assert(new[b] == env[b - 1]);
            if b - 1 > i {
                assert(bytes_less(env[i].0, env[b - 1].0));
                less_is_transitive(key, env[i].0, env[b - 1].0);
            }
        } else if b == i {
            assert(new[a] == env[a]);
        } else {
            assert(new[a] == env[from_a] && new[b] == env[from_b]);
            assert(bytes_less(env[from_a].0, env[from_b].0));
        }
    }
    env_map_entries(env);
    env_map_entries(new);
    let want = env_map(env).insert(key, value);
    assert(new[i] == (key, value));
    assert forall|k: Seq<u8>| #[trigger] env_map(new).contains_key(k) == want.contains_key(k) by {
        if env_map(new).contains_key(k) {
            let j = choose|j: int| 0 <= j < new.len() && (#[trigger] new[j]).0 == k;
            if j < i {
                assert(env[j].0 == k);
            } else if j > i {
                assert(env[j - 1].0 == k);
            }
        }
        if env_map(env).contains_key(k) {
            let j = choose|j: int| 0 <= j < env.len() && (#[trigger] env[j]).0 == k;
            if j < i {
                assert(new[j].0 == k);
            } else {
                assert(new[j + 1].0 == k);
            }
        }
    }
    assert forall|k: Seq<u8>| #[trigger] env_map(new).contains_key(k) implies env_map(new)[k]
        == want[k] by {
        let j = choose|j: int| 0 <= j < new.len() && (#[trigger] new[j]).0 == k;
        if j != i {
            if j < i {
                assert(new[j] == env[j]);
                assert(bytes_less(new[j].0, new[i].0));
            } else {
                assert(new[j] == env[j - 1]);
                assert(bytes_less(new[i].0, new[j].0));
            }
            less_is_strict(key);
        }
    }
    assert(env_map(new) =~= want);
}

/// The order of the variables says nothing: two environments that give the same
/// variables the same values are the same, entry for entry.
pub proof fn environments_are_their_maps(a: Seq<EnvView>, b: Seq<EnvView>)
    requires
        ascending(a),
        ascending(b),
        env_map(a) == env_map(b),
    ensures
        a == b,
    decreases a.len(),
{
    env_map_entries(a);
    env_map_entries(b);
    if a.len() == 0 {
        if b.len() > 0 {
            assert(env_map(b).contains_key(b[0].0));
        }
        assert(a =~= b);
    } else {
        assert(env_map(b).contains_key(a[a.len() - 1].0));
        let j = choose|j: int| 0 <= j < b.len() && (#[trigger] b[j]).0 == a[a.len() - 1].0;
        assert(env_map(a).contains_key(b[b.len() - 1].0));
        let i = choose|i: int| 0 <= i < a.len() && (#[trigger] a[i]).0 == b[b.len() - 1].0;
        if i < a.len() - 1 && j < b.len() - 1 {
            assert(bytes_less(a[i].0, a[a.len() - 1].0));
            assert(bytes_less(b[j].0, b[b.len() - 1].0));
            less_is_transitive(a[i].0, a[a.len() - 1].0, a[i].0);
            less_is_strict(a[i].0);
        }
        assert(a.last().0 == b.last().0);
        assert(a.last() == b.last());
        let fa = a.drop_last();
        let fb = b.drop_last();
        assert forall|x: int, y: int| 0 <= x < y < fa.len() implies bytes_less(
            (#[trigger] fa[x]).0,
            (#[trigger] fa[y]).0,
        ) by {
            assert(fa[x] == a[x] && fa[y] == a[y]);
        }
        assert forall|x: int, y: int| 0 <= x < y < fb.len() implies bytes_less(
            (#[trigger] fb[x]).0,
            (#[trigger] fb[y]).0,
        ) by {
            assert(fb[x] == b[x] && fb[y] == b[y]);
        }
        env_map_entries(fa);
        env_map_entries(fb);
        let key = a.last().0;
        assert(!env_map(fa).contains_key(key)) by {
            if env_map(fa).contains_key(key) {
                let k = choose|k: int| 0 <= k < fa.len() && (#[trigger] fa[k]).0 == key;
                assert(bytes_less(a[k].0, a[a.len() - 1].0));
                less_is_strict(key);
            }
        }
        assert(!env_map(fb).contains_key(key)) by {
            if env_map(fb).contains_key(key) {
                let k = choose|k: int| 0 <= k < fb.len() && (#[trigger] fb[k]).0 == key;
                assert(bytes_less(b[k].0, b[b.len() - 1].0));
                less_is_strict(key);
            }
        }
        assert(env_map(fa) =~= env_map(a).remove(key));
        assert(env_map(fb) =~= env_map(b).remove(key));
        environments_are_their_maps(fa, fb);
        assert(a =~= fa.push(a.last()));
        assert(b =~= fb.push(b.last()));
    }
}

/// Names are ordered byte by byte: what both begin with does not count, then the
/// smaller byte comes first, and a name that ends there comes before a longer one.
pub proof fn names_are_ordered_byte_by_byte(p: Seq<u8>, a: Seq<u8>, b: Seq<u8>)
    ensures
        bytes_less(p + a, p + b) == bytes_less(a, b),
        a.len() == 0 ==> (bytes_less(a, b) <==> b.len() > 0),
        b.len() == 0 ==> !bytes_less(a, b),
        a.len() > 0 && b.len() > 0 && a[0] != b[0] ==> (bytes_less(a, b) <==> a[0] < b[0]),
    decreases p.len(),
{
    if p.len() == 0 {
        assert(p + a =~= a);
        assert(p + b =~= b);
    } else {
        names_are_ordered_byte_by_byte(p.skip(1), a, b);
        assert((p + a).skip(1) =~= p.skip(1) + a);
        assert((p + b).skip(1) =~= p.skip(1) + b);
    }
}

/// An environment gives a variable its last value.
pub proof fn last_values_count(env: Seq<EnvView>, key: Seq<u8>, value: Seq<u8>, other: Seq<u8>)
    requires
        other != key,
    ensures
        ({
            let more = env_map(env.push((key, value)));
            &&& more.contains_key(key)
            &&& more[key] == value
            &&& more.contains_key(other) == env_map(env).contains_key(other)
            &&& env_map(env).contains_key(other) ==> more[other] == env_map(env)[other]
        }),
        !env_map(Seq::empty()).contains_key(key),
{
    assert(env.push((key, value)).drop_last() =~= env);
}

/// The environment as text has the variables whose name and value are both text,
/// in their order.
pub proof fn text_environments_keep_text(a: Seq<EnvView>, b: Seq<EnvView>, e: EnvView)
    ensures
        text_env(a + b) == text_env(a) + text_env(b),
        vstd::utf8::valid_utf8(e.0) && vstd::utf8::valid_utf8(e.1) ==> text_env(seq![e]) == seq![
            (vstd::utf8::decode_utf8(e.0), vstd::utf8::decode_utf8(e.1)),
        ],
        !vstd::utf8::valid_utf8(e.0) || !vstd::utf8::valid_utf8(e.1) ==> text_env(seq![e]).len()
            == 0,
        text_env(Seq::empty()).len() == 0,
    decreases b.len(),
{
    reveal_with_fuel(text_env, 2);
    assert(seq![e].drop_last() =~= Seq::<EnvView>::empty());
    if vstd::utf8::valid_utf8(e.0) && vstd::utf8::valid_utf8(e.1) {
        assert(text_env(seq![e]) =~= seq![
            (vstd::utf8::decode_utf8(e.0), vstd::utf8::decode_utf8(e.1)),
        ]);
    }
    if b.len() == 0 {
        assert(a + b =~= a);
        assert(text_env(a + b) =~= text_env(a) + text_env(b));
    } else {
        text_environments_keep_text(a, b.drop_last(), e);
        assert((a + b).drop_last() =~= a + b.drop_last());
        assert(text_env(a + b) =~= text_env(a) + text_env(b));
    }
}

/// A variable that was set reads as what it was set to; every other reads as
/// before, and neither the arguments nor the directory change.
pub proof fn variables_read_back(
    cmd: &mut CommandBuilder,
    key: &[u8],
    value: &[u8],
    other: Seq<u8>,
)
    requires
        old(cmd)@.wf(),
        call_ensures(CommandBuilder::env, (cmd, key, value), ()),
        other != key@,
    ensures
        final(cmd)@.vars().contains_key(key@),
        final(cmd)@.vars()[key@] == value@,
        final(cmd)@.vars().contains_key(other) == old(cmd)@.vars().contains_key(other),
        old(cmd)@.vars().contains_key(other) ==> final(cmd)@.vars()[other] == old(
            cmd,
        )@.vars()[other],
        final(cmd)@.argv == old(cmd)@.argv,
        final(cmd)@.cwd == old(cmd)@.cwd,
{
}

/// Reading a variable gives its value, if it is set.
pub proof fn reads_give_the_value(cmd: CommandBuilder, key: &[u8], r: Option<&Vec<u8>>)
    requires
        cmd@.wf(),
        call_ensures(CommandBuilder::get_env, (&cmd, key), r),
    ensures
        r is Some <==> cmd@.vars().contains_key(key@),
        r matches Some(v) ==> v@ == cmd@.vars()[key@],
{
}

/// A new command is its program alone; an argument goes behind the others.
pub proof fn arguments_go_last(
    program: &[u8],
    fresh: CommandBuilder,
    default: CommandBuilder,
    is_default: bool,
    cmd: &mut CommandBuilder,
    arg: &[u8],
)
    requires
        call_ensures(CommandBuilder::new, (program,), fresh),
        call_ensures(CommandBuilder::new_default_prog, (), default),
        call_ensures(CommandBuilder::is_default_prog, (&fresh,), is_default),
        old(cmd)@.argv.len() > 0,
        call_ensures(CommandBuilder::arg, (cmd, arg), ()),
    ensures
        fresh@.argv == seq![program@],
        fresh@.cwd is None,
        fresh@.env.len() == 0,
        default@.argv.len() == 0 && default@.cwd is None && default@.env.len() == 0,
        !is_default,
        final(cmd)@.argv.len() == old(cmd)@.argv.len() + 1,
        final(cmd)@.argv.last() == arg@,
        final(cmd)@.argv.drop_last() == old(cmd)@.argv,
        final(cmd)@.cwd == old(cmd)@.cwd,
        final(cmd)@.env == old(cmd)@.env,
{
    assert(final(cmd)@.argv.drop_last() =~= old(cmd)@.argv);
}

} // verus!
