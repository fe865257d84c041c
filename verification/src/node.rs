//! Node names, and what is shown of a node that failed.

use crate::error::NixError;
use crate::text::{chars_of, clone_strings, lines_spec, split_lines, str_eq, strings_view};
use vstd::prelude::*;
use vstd::string::*;

verus! {

/// Whether a character is a printable ASCII character.
pub open spec fn is_printable(c: char) -> bool {
    ' ' <= c && c <= '~'
}

/// Whether a text can name a node: every character is printable ASCII.
pub open spec fn is_node_name(name: Seq<char>) -> bool {
    forall|i: int| 0 <= i < name.len() ==> is_printable(#[trigger] name[i])
}

/// The name of a node.
#[derive(Debug)]
pub struct NodeName {
    name: String,
}

impl View for NodeName {
    type V = Seq<char>;

    closed spec fn view(&self) -> Seq<char> {
        self.name@
    }
}

impl NodeName {
    #[verifier::type_invariant]
    spec fn well_formed(self) -> bool {
        is_node_name(self.name@)
    }

    /// Takes a text as the name of a node if it can name one.
    pub fn new(name: String) -> (r: Result<NodeName, NixError>)
        ensures
            is_node_name(name@) ==> r is Ok && r->Ok_0@ == name@,
            !is_node_name(name@) ==> r == Err::<NodeName, NixError>(NixError::InvalidNodeName),
    {
        let chars = chars_of(name.as_str());
        let mut i: usize = 0;
        while i < chars.len()
            invariant
                chars@ == name@,
                i <= chars.len(),
                forall|j: int| 0 <= j < i ==> is_printable(#[trigger] chars@[j]),
            decreases chars.len() - i,
        {
            let c = chars[i];
            if c < ' ' || c > '~' {
                assert(!is_printable(name@[i as int]));
                return Err(NixError::InvalidNodeName);
            }
            i = i + 1;
        }
        Ok(NodeName { name })
    }

    /// The name as text.
    pub fn as_str(&self) -> (r: &str)
        ensures
            r@ == self@,
            is_node_name(r@),
    {
        proof {
            use_type_invariant(self);
        }
        self.name.as_str()
    }
}

/// Whether no name occurs twice.
pub open spec fn distinct(names: Seq<NodeName>) -> bool {
    forall|i: int, j: int| 0 <= i < j < names.len() ==> names[i]@ != names[j]@
}

/// Whether every node of a deployment has a name of its own.
pub fn distinct_names(names: &Vec<NodeName>) -> (r: bool)
    ensures
        r == distinct(names@),
{
    let n = names.len();
    let mut j: usize = 0;
    while j < n
        invariant
            n == names.len(),
            j <= n,
            forall|a: int, b: int| 0 <= a < b < j ==> names@[a]@ != names@[b]@,
        decreases n - j,
    {
        let mut i: usize = 0;
        while i < j
            invariant
                n == names.len(),
                j < n,
                i <= j,
                forall|a: int| 0 <= a < i ==> names@[a]@ != names@[j as int]@,
            decreases j - i,
        {
            if str_eq(names[i].as_str(), names[j].as_str()) {
                return false;
            }
            i = i + 1;
        }
        j = j + 1;
    }
    true
}

/// The line that sums up a failure: the node's name, a colon and a space,
/// and the word for the kind of the error.
pub open spec fn summary_spec(node: Seq<char>, error: NixError) -> Seq<char> {
    node + ": "@ + error.kind().name()
}

/// The line that sums up a node's failure.
pub fn failure_summary(node: &NodeName, error: NixError) -> (r: String)
    ensures
        r@ == summary_spec(node@, error),
{
    String::from_str(node.as_str()).concat(": ").concat(error.kind().as_str())
}

/// The last `n` of the lines, or all of them where there are no more than `n`.
pub open spec fn last_of(lines: Seq<Seq<char>>, n: usize) -> Seq<Seq<char>> {
    if lines.len() <= n {
        lines
    } else {
        lines.skip(lines.len() - n)
    }
}

/// The last `n` lines of what a subprocess printed, to be shown with a failure.
pub fn last_lines(output: &str, n: usize) -> (r: Vec<String>)
    ensures
        strings_view(r@) == last_of(lines_spec(output@), n),
{
    let lines = split_lines(output);
    let from: usize = if lines.len() <= n {
        0
    } else {
        lines.len() - n
    };
    assert(strings_view(lines@).skip(0) =~= strings_view(lines@));
    clone_strings(&lines, from)
}

/// Whether the node at place `i` is selected: every node is where there is
/// no filter; with a filter, the nodes that it matches are.
pub open spec fn is_selected(matched: Option<Seq<bool>>, i: int) -> bool {
    match matched {
        None => true,
        Some(m) => 0 <= i < m.len() && m[i],
    }
}

/// The places of the selected nodes among `n`, in order.
pub open spec fn selection(n: nat, matched: Option<Seq<bool>>) -> Seq<usize>
    decreases n,
{
    if n == 0 {
        Seq::empty()
    } else if is_selected(matched, n - 1) {
        selection((n - 1) as nat, matched).push((n - 1) as usize)
    } else {
        selection((n - 1) as nat, matched)
    }
}

/// Selects nodes among `n`. `matched` says for every node whether the
/// filter matches it; `None` stands for no filter.
pub fn select_nodes(n: usize, matched: Option<&Vec<bool>>) -> (r: Vec<usize>)
    ensures
        r@ == selection(
            n as nat,
            match matched {
                Some(m) => Some(m@),
                None => None,
            },
        ),
{
    let ghost filter = match matched {
        Some(m) => Some(m@),
        None => None,
    };
    let mut out: Vec<usize> = Vec::new();
    let mut i: usize = 0;
    while i < n
        invariant
            i <= n,
            out@ == selection(i as nat, filter),
            filter == (match matched {
                Some(m) => Some(m@),
                None => None,
            }),
        decreases n - i,
    {
        let selected = match matched {
            None => true,
            Some(m) => i < m.len() && m[i],
        };
        if selected {
            out.push(i);
        }
        i = i + 1;
    }
    out
}

/// No filter selects every node, and a filter that matches no node selects
/// none: the two are not the same.
pub proof fn lemma_no_filter_is_not_an_empty_filter(n: nat, matched: Seq<bool>)
    requires
        forall|i: int| 0 <= i < matched.len() ==> !matched[i],
    ensures
        selection(n, Some(matched)).len() == 0,
        selection(n, None).len() == n,
    decreases n,
{
    if n > 0 {
        lemma_no_filter_is_not_an_empty_filter((n - 1) as nat, matched);
    }
}

} // verus!
