//! Completion and hover lookup over the static attribute dictionaries.  The
//! dictionaries themselves are configuration, built once at startup by the
//! embedding program and passed here by reference; this module only decides
//! what a given cursor target yields.

use vstd::prelude::*;

verus! {

/// One completion entry: an attribute (or value) name and its description.
#[derive(Debug)]
pub struct EspxCompletion {
    pub name: String,
    pub desc: String,
}

/// One hover entry: an attribute name and the text shown on hover.
#[derive(Debug)]
pub struct EspxHover {
    pub name: String,
    pub desc: String,
}

impl Clone for EspxCompletion {
    fn clone(&self) -> (r: Self)
        ensures
            r == *self,
    {
        EspxCompletion { name: self.name.clone(), desc: self.desc.clone() }
    }
}

impl EspxCompletion {
    /// Builds a completion entry from a name/description pair.
    pub fn new(name: &str, desc: &str) -> (r: EspxCompletion)
        ensures
            r.name@ == name@,
            r.desc@ == desc@,
    {
        EspxCompletion { name: name.to_owned(), desc: desc.to_owned() }
    }

    /// Builds a completion entry from a filesystem path's textual form, as
    /// the caller hands it over (`None` where the path is not valid text).
    /// A missing or empty name yields nothing.
    pub fn try_from_path(name: Option<&String>, desc: &String) -> (r: Option<EspxCompletion>)
        ensures
            match name {
                Some(n) => if n@.len() > 0 {
                    r matches Some(c) && c.name@ == n@ && c.desc@ == desc@
                } else {
                    r is None
                },
                None => r is None,
            },
    {
        match name {
            None => None,
            Some(n) => {
                if n.unicode_len() == 0 {
                    None
                } else {
                    Some(EspxCompletion { name: n.clone(), desc: desc.clone() })
                }
            },
        }
    }
}

/// Maps every name/description pair to a completion entry, keeping order.
pub fn to_hx_completion(values: Vec<(&str, &str)>) -> (r: Vec<EspxCompletion>)
    ensures
        r@.len() == values@.len(),
        forall|i: int|
            0 <= i < values@.len() ==> (#[trigger] r@[i]).name@ == values@[i].0@ && r@[i].desc@
                == values@[i].1@,
{
    let mut r: Vec<EspxCompletion> = Vec::new();
    let n = values.len();
    let mut i: usize = 0;
    while i < n
        invariant
            i <= n,
            n == values@.len(),
            r@.len() == i,
            forall|k: int|
                0 <= k < i ==> (#[trigger] r@[k]).name@ == values@[k].0@ && r@[k].desc@
                    == values@[k].1@,
        decreases n - i,
    {
        let (name, desc) = values[i];
        r.push(EspxCompletion::new(name, desc));
        i += 1;
    }
    r
}

/// Where the editor's cursor stands when completion or hover is requested,
/// as resolved by the external source-position engine.
#[derive(Debug, Clone, PartialEq)]
pub enum CursorTarget {
    AttributeName(String),
    AttributeValue { name: String, value: String },
}

/// The attribute name the cursor target speaks of.
pub open spec fn target_name(t: CursorTarget) -> Seq<char> {
    match t {
        CursorTarget::AttributeName(n) => n@,
        CursorTarget::AttributeValue { name, value } => name@,
    }
}

/// The completion and hover dictionaries: an immutable configuration object
/// built once at startup and passed by reference to whatever needs lookup.
pub struct HxConfig {
    /// Known attribute tags, with their descriptions.
    pub tags: Vec<EspxCompletion>,
    /// Per-attribute completion values, keyed by attribute name.
    pub attribute_values: Vec<(String, Vec<EspxCompletion>)>,
}

/// The name begins with the attribute namespace marker `hx-`.
pub open spec fn starts_with_hx(name: Seq<char>) -> bool {
    &&& name.len() >= 3
    &&& name[0] == 'h'
    &&& name[1] == 'x'
    &&& name[2] == '-'
}

/// Index of the first dictionary entry keyed exactly `name`; the dictionary's
/// length if there is none.
pub open spec fn first_key_match(
    entries: Seq<(String, Vec<EspxCompletion>)>,
    name: Seq<char>,
    k: int,
) -> int
    decreases entries.len() - k
        when 0 <= k
{
    if k >= entries.len() {
        entries.len() as int
    } else if entries[k].0@ == name {
        k
    } else {
        first_key_match(entries, name, k + 1)
    }
}

/// Index of the first tag named exactly `name`; the tag list's length if
/// there is none.
pub open spec fn first_tag_match(tags: Seq<EspxCompletion>, name: Seq<char>, k: int) -> int
    decreases tags.len() - k
        when 0 <= k
{
    if k >= tags.len() {
        tags.len() as int
    } else if tags[k].name@ == name {
        k
    } else {
        first_tag_match(tags, name, k + 1)
    }
}

fn name_starts_with_hx(name: &str) -> (r: bool)
    ensures
        r == starts_with_hx(name@),
{
    let n = name.unicode_len();
    if n < 3 {
        return false;
    }
    name.get_char(0) == 'h' && name.get_char(1) == 'x' && name.get_char(2) == '-'
}

fn clone_completions(v: &Vec<EspxCompletion>) -> (r: Vec<EspxCompletion>)
    ensures
        r@ == v@,
{
    let mut r: Vec<EspxCompletion> = Vec::new();
    let n = v.len();
    let mut i: usize = 0;
    while i < n
        invariant
            i <= n,
            n == v@.len(),
            r@.len() == i,
            forall|k: int| 0 <= k < i ==> #[trigger] r@[k] == v@[k],
        decreases n - i,
    {
        r.push(v[i].clone());
        i += 1;
    }
    proof {
        assert(r@ =~= v@);
    }
    r
}

/// What completion offers at the cursor target: on an attribute name in the
/// `hx-` namespace, every known tag; on an attribute value, the values the
/// dictionary holds for that attribute; otherwise nothing.
pub fn espx_completion(config: &HxConfig, target: &CursorTarget) -> (r: Option<
    Vec<EspxCompletion>,
>)
    ensures
        (*target matches CursorTarget::AttributeName(name) ==> {
            &&& r is Some <==> starts_with_hx(name@)
            &&& (r matches Some(v) ==> v@ == config.tags@)
        }),
        (*target matches CursorTarget::AttributeValue { name, value } ==> {
            let k = first_key_match(config.attribute_values@, name@, 0);
            &&& r is Some <==> k < config.attribute_values@.len()
            &&& (r matches Some(v) ==> v@ == config.attribute_values@[k].1@)
        }),
{
    match target {
        CursorTarget::AttributeName(name) => {
            if name_starts_with_hx(name.as_str()) {
                Some(clone_completions(&config.tags))
            } else {
                None
            }
        },
        CursorTarget::AttributeValue { name, value } => {
            let n = config.attribute_values.len();
            let mut i: usize = 0;
            while i < n
                invariant
                    i <= n,
                    n == config.attribute_values@.len(),
                    *target matches CursorTarget::AttributeValue { name: tn, value: tv } && tn@
                        == name@,
                    first_key_match(config.attribute_values@, name@, 0) == first_key_match(
                        config.attribute_values@,
                        name@,
                        i as int,
                    ),
                decreases n - i,
            {
                if config.attribute_values[i].0 == *name {
                    return Some(clone_completions(&config.attribute_values[i].1));
                }
                i += 1;
            }
            None
        },
    }
}

/// What hover shows at the cursor target: the first tag whose name equals the
/// target's attribute name, if the dictionary knows one.
pub fn espx_hover(config: &HxConfig, target: &CursorTarget) -> (r: Option<EspxCompletion>)
    ensures
        ({
            let k = first_tag_match(config.tags@, target_name(*target), 0);
            &&& r is Some <==> k < config.tags@.len()
            &&& (r matches Some(c) ==> c == config.tags@[k])
        }),
{
    let name: &String = match target {
        CursorTarget::AttributeName(n) => n,
        CursorTarget::AttributeValue { name: n, value: _ } => n,
    };
    let n = config.tags.len();
    let mut i: usize = 0;
    while i < n
        invariant
            i <= n,
            n == config.tags@.len(),
            name@ == target_name(*target),
            first_tag_match(config.tags@, name@, 0) == first_tag_match(
                config.tags@,
                name@,
                i as int,
            ),
        decreases n - i,
    {
        if config.tags[i].name == *name {
            return Some(config.tags[i].clone());
        }
        i += 1;
    }
    None
}

} // verus!
