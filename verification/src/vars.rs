use vstd::prelude::*;

verus! {

/// The mapping a list of name/value entries denotes; the entry nearest the
/// front wins when a name occurs twice.
pub open spec fn map_of(entries: Seq<(String, String)>) -> Map<Seq<char>, Seq<char>>
    decreases entries.len(),
{
    if entries.len() == 0 {
        Map::empty()
    } else {
        map_of(entries.drop_first()).insert(entries[0].0@, entries[0].1@)
    }
}

/// Per-cycle mapping from variable names to captured command output,
/// consumed by destination-template expansion.
pub struct VarContext {
    entries: Vec<(String, String)>,
}

impl View for VarContext {
    type V = Map<Seq<char>, Seq<char>>;

    closed spec fn view(&self) -> Map<Seq<char>, Seq<char>> {
        map_of(self.entries@)
    }
}

impl VarContext {
    /// A fresh, empty context; each task cycle starts from one.
    pub fn new() -> (r: VarContext)
        ensures
            r@ == Map::<Seq<char>, Seq<char>>::empty(),
    {
        VarContext { entries: Vec::new() }
    }

    /// Binds `name` to `value`, shadowing any earlier binding of `name`.
    pub fn declare(&mut self, name: String, value: String)
        ensures
            final(self)@ == old(self)@.insert(name@, value@),
    {
        let ghost before = self.entries@;
        self.entries.insert(0, (name, value));
        proof {
            assert(self.entries@.drop_first() =~= before);
        }
    }

    fn get_at(&self, idx: usize, name: &String) -> (r: Option<String>)
        requires
            idx <= self.entries.len(),
        ensures
            match r {
                Some(v) => map_of(self.entries@.skip(idx as int)).contains_key(name@) && v@
                    == map_of(self.entries@.skip(idx as int))[name@],
                None => !map_of(self.entries@.skip(idx as int)).contains_key(name@),
            },
        decreases self.entries.len() - idx,
    {
        if idx >= self.entries.len() {
            proof {
                assert(self.entries@.skip(idx as int) =~= Seq::<(String, String)>::empty());
            }
            None
        } else {
            let ghost tail = self.entries@.skip(idx as int);
            proof {
                assert(tail[0] == self.entries@[idx as int]);
                assert(tail.drop_first() =~= self.entries@.skip(idx as int + 1));
            }
            if self.entries[idx].0 == *name {
                Some(self.entries[idx].1.clone())
            } else {
                self.get_at(idx + 1, name)
            }
        }
    }

    /// Looks a variable up; the most recent binding wins.
    pub fn get(&self, name: &String) -> (r: Option<String>)
        ensures
            match r {
                Some(v) => self@.contains_key(name@) && v@ == self@[name@],
                None => !self@.contains_key(name@),
            },
    {
        proof {
            assert(self.entries@.skip(0) =~= self.entries@);
        }
        self.get_at(0, name)
    }
}

/// First position at or after `from` where `c` stands in `s`, if any.
pub open spec fn find_from(s: Seq<char>, from: int, c: char) -> Option<int>
    decreases s.len() - from when 0 <= from <= s.len()
{
    if from >= s.len() {
        None
    } else if s[from] == c {
        Some(from)
    } else {
        find_from(s, from + 1, c)
    }
}

/// Template expansion failed because the named variable was never declared
/// in this cycle.
#[derive(Debug)]
pub enum ExpandError {
    UnresolvedVariable(String),
}

/// The expansion of `t` under `vars`: literal characters stand for
/// themselves, each `${name}` is replaced by the value bound to `name`, and
/// the first reference to an unbound name is the error. A `$` without `{`,
/// and an unclosed `${`, are kept verbatim.
pub open spec fn expand_spec(t: Seq<char>, vars: Map<Seq<char>, Seq<char>>) -> Result<
    Seq<char>,
    Seq<char>,
>
    decreases t.len(),
{
    if t.len() == 0 {
        Ok(Seq::empty())
    } else if t.len() >= 2 && t[0] == '$' && t[1] == '{' {
        match find_from(t, 2, '}') {
            Some(j) => if 2 <= j < t.len() {
                let name = t.subrange(2, j);
                if vars.contains_key(name) {
                    match expand_spec(t.skip(j + 1), vars) {
                        Ok(rest) => Ok(vars[name] + rest),
                        Err(e) => Err(e),
                    }
                } else {
                    Err(name)
                }
            } else {
                Ok(t)
            },
            None => Ok(t),
        }
    } else {
        match expand_spec(t.drop_first(), vars) {
            Ok(rest) => Ok(seq![t[0]] + rest),
            Err(e) => Err(e),
        }
    }
}

proof fn lemma_find_from_first(s: Seq<char>, from: int, c: char, j: int)
    requires
        0 <= from <= j < s.len(),
        s[j] == c,
        forall|k: int| from <= k < j ==> s[k] != c,
    ensures
        find_from(s, from, c) == Some(j),
    decreases j - from,
{
    if from < j {
        lemma_find_from_first(s, from + 1, c, j);
    }
}

/// Law: a reference to a bound variable expands to exactly its value: for
/// every name without a closing brace, the template `${name}` expands to
/// what the context binds `name` to.
pub proof fn lemma_reference_expands(name: Seq<char>, vars: Map<Seq<char>, Seq<char>>)
    requires
        vars.contains_key(name),
        forall|i: int| 0 <= i < name.len() ==> name[i] != '}',
    ensures
        expand_spec(seq!['$', '{'] + name + seq!['}'], vars) == Ok::<Seq<char>, Seq<char>>(
            vars[name],
        ),
{
    let t = seq!['$', '{'] + name + seq!['}'];
    let j = name.len() as int + 2;
    assert(t.len() == name.len() + 3);
    assert(t[0] == '$');
    assert(t[1] == '{');
    assert(t[j] == '}');
    assert(forall|k: int| 2 <= k < j ==> t[k] == name[k - 2]);
    lemma_find_from_first(t, 2, '}', j);
    assert(t.subrange(2, j) =~= name);
    assert(t.skip(j + 1) =~= Seq::<char>::empty());
    assert(expand_spec(Seq::<char>::empty(), vars) == Ok::<Seq<char>, Seq<char>>(
        Seq::<char>::empty(),
    ));
    assert(vars[name] + Seq::<char>::empty() =~= vars[name]);
}

/// Law: expansion fails only with the name of a variable that is indeed
/// not bound in the context, and it is the first such reference.
pub proof fn lemma_unresolved_is_unbound(t: Seq<char>, vars: Map<Seq<char>, Seq<char>>)
    ensures
        expand_spec(t, vars) matches Err(n) ==> !vars.contains_key(n),
    decreases t.len(),
{
    if t.len() == 0 {
    } else if t.len() >= 2 && t[0] == '$' && t[1] == '{' {
        match find_from(t, 2, '}') {
            Some(j) => {
                if 2 <= j < t.len() {
                    if vars.contains_key(t.subrange(2, j)) {
                        lemma_unresolved_is_unbound(t.skip(j + 1), vars);
                    }
                }
            },
            None => {},
        }
    } else {
        lemma_unresolved_is_unbound(t.drop_first(), vars);
    }
}

fn find_char(s: &str, from: usize, c: char) -> (r: Option<usize>)
    requires
        from <= s@.len(),
    ensures
        match r {
            Some(j) => from <= j < s@.len() && find_from(s@, from as int, c) == Some(j as int),
            None => find_from(s@, from as int, c) is None,
        },
    decreases s@.len() - from,
{
    if from >= s.unicode_len() {
        None
    } else if s.get_char(from) == c {
        Some(from)
    } else {
        find_char(s, from + 1, c)
    }
}

/// Expands `${name}` references in `template` from `vars`, exactly as
/// `expand_spec` describes.
pub fn expand_template(template: &str, vars: &VarContext) -> (r: Result<String, ExpandError>)
    ensures
        match r {
            Ok(s) => expand_spec(template@, vars@) == Ok::<Seq<char>, Seq<char>>(s@),
            Err(ExpandError::UnresolvedVariable(n)) => expand_spec(template@, vars@) == Err::<
                Seq<char>,
                Seq<char>,
            >(n@),
        },
    decreases template@.len(),
{
    let len = template.unicode_len();
    if len == 0 {
        let out = String::new();
        proof {
            assert(out@ =~= Seq::<char>::empty());
        }
        return Ok(out);
    }
    if len >= 2 && template.get_char(0) == '$' && template.get_char(1) == '{' {
        match find_char(template, 2, '}') {
            Some(j) => {
                let name = template.substring_char(2, j);
                let name_string = String::from_str(name);
                match vars.get(&name_string) {
                    Some(v) => {
                        let rest = template.substring_char(j + 1, len);
                        proof {
                            assert(rest@ =~= template@.skip(j + 1));
                        }
                        match expand_template(rest, vars) {
                            Ok(tail) => {
                                let mut out = v;
                                out.append(tail.as_str());
                                Ok(out)
                            },
                            Err(e) => Err(e),
                        }
                    },
                    None => Err(ExpandError::UnresolvedVariable(name_string)),
                }
            },
            None => Ok(String::from_str(template)),
        }
    } else {
        let head = template.substring_char(0, 1);
        let rest = template.substring_char(1, len);
        proof {
            assert(head@ =~= seq![template@[0]]);
            assert(rest@ =~= template@.drop_first());
        }
        match expand_template(rest, vars) {
            Ok(tail) => {
                let mut out = String::from_str(head);
                out.append(tail.as_str());
                Ok(out)
            },
            Err(e) => Err(e),
        }
    }
}

} // verus!
