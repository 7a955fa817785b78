//! Technology detection and selection: which ecosystem a project
//! belongs to, which actions each supports, and how a technology is
//! chosen when several are discovered.

use vstd::prelude::*;

use crate::commands::Action;

verus! {

/// The infrastructure technologies a project can use.
#[derive(Debug, Clone, Copy, PartialEq, Eq, Structural)]
pub enum Technology {
    Terraform,
    Helm,
    Kustomize,
    Ansible,
}

/// Which actions a technology implements.
pub open spec fn spec_supports_action(t: Technology, a: Action) -> bool {
    match (t, a) {
        (Technology::Terraform, Action::Plan) => true,
        (Technology::Terraform, Action::Check) => true,
        (Technology::Terraform, Action::Apply) => true,
        (Technology::Terraform, Action::Destroy) => true,
        (Technology::Terraform, Action::Delete) => true,
        (Technology::Terraform, Action::Output { .. }) => true,
        (Technology::Terraform, Action::Duplicate { .. }) => true,
        (Technology::Terraform, Action::Unlock { .. }) => true,
        (Technology::Terraform, Action::Show) => true,
        (Technology::Helm, Action::Apply) => true,
        (Technology::Helm, Action::Uninstall) => true,
        (Technology::Helm, Action::Delete) => true,
        (Technology::Helm, Action::Destroy) => true,
        (Technology::Helm, Action::Template) => true,
        (Technology::Helm, Action::Deps) => true,
        (Technology::Helm, Action::Diff) => true,
        (Technology::Helm, Action::Check) => true,
        (Technology::Helm, Action::Duplicate { .. }) => true,
        (Technology::Ansible, Action::Diff) => true,
        (Technology::Ansible, Action::Apply) => true,
        (Technology::Ansible, Action::List) => true,
        (Technology::Ansible, Action::Deps) => true,
        (Technology::Kustomize, Action::Apply) => true,
        (Technology::Kustomize, Action::Diff) => true,
        _ => false,
    }
}

impl Technology {
    /// The technology's lower-case name.
    pub fn as_str(&self) -> (r: &'static str)
        ensures
            self is Terraform ==> r@ == "terraform"@,
            self is Helm ==> r@ == "helm"@,
            self is Kustomize ==> r@ == "kustomize"@,
            self is Ansible ==> r@ == "ansible"@,
    {
        match self {
            Technology::Terraform => "terraform",
            Technology::Helm => "helm",
            Technology::Kustomize => "kustomize",
            Technology::Ansible => "ansible",
        }
    }

    /// Whether this technology implements the given action.
    pub fn supports_action(&self, action: &Action) -> (r: bool)
        ensures
            r == spec_supports_action(*self, *action),
    {
        match (self, action) {
            (Technology::Terraform, Action::Plan) => true,
            (Technology::Terraform, Action::Check) => true,
            (Technology::Terraform, Action::Apply) => true,
            (Technology::Terraform, Action::Destroy) => true,
            (Technology::Terraform, Action::Delete) => true,
            (Technology::Terraform, Action::Output { .. }) => true,
            (Technology::Terraform, Action::Duplicate { .. }) => true,
            (Technology::Terraform, Action::Unlock { .. }) => true,
            (Technology::Terraform, Action::Show) => true,
            (Technology::Helm, Action::Apply) => true,
            (Technology::Helm, Action::Uninstall) => true,
            (Technology::Helm, Action::Delete) => true,
            (Technology::Helm, Action::Destroy) => true,
            (Technology::Helm, Action::Template) => true,
            (Technology::Helm, Action::Deps) => true,
            (Technology::Helm, Action::Diff) => true,
            (Technology::Helm, Action::Check) => true,
            (Technology::Helm, Action::Duplicate { .. }) => true,
            (Technology::Ansible, Action::Diff) => true,
            (Technology::Ansible, Action::Apply) => true,
            (Technology::Ansible, Action::List) => true,
            (Technology::Ansible, Action::Deps) => true,
            (Technology::Kustomize, Action::Apply) => true,
            (Technology::Kustomize, Action::Diff) => true,
            _ => false,
        }
    }
}

/// The technology a directory directly exhibits, from its markers: a
/// directory named `ansible` or `terraform` decides first, then a
/// chart manifest, then an `overlays` directory.
pub open spec fn spec_direct_markers(
    dir_named_ansible: bool,
    dir_named_terraform: bool,
    has_chart_yaml: bool,
    has_overlays: bool,
) -> Option<Technology> {
    if dir_named_ansible {
        Some(Technology::Ansible)
    } else if dir_named_terraform {
        Some(Technology::Terraform)
    } else if has_chart_yaml {
        Some(Technology::Helm)
    } else if has_overlays {
        Some(Technology::Kustomize)
    } else {
        None
    }
}

/// Decide a directory's technology from its markers, in precedence
/// order: its own name, a chart manifest, an overlay tree.
pub fn detect_from_markers(
    dir_named_ansible: bool,
    dir_named_terraform: bool,
    has_chart_yaml: bool,
    has_overlays: bool,
) -> (r: Option<Technology>)
    ensures
        r == spec_direct_markers(
            dir_named_ansible,
            dir_named_terraform,
            has_chart_yaml,
            has_overlays,
        ),
{
    if dir_named_ansible {
        Some(Technology::Ansible)
    } else if dir_named_terraform {
        Some(Technology::Terraform)
    } else if has_chart_yaml {
        Some(Technology::Helm)
    } else if has_overlays {
        Some(Technology::Kustomize)
    } else {
        None
    }
}

/// Indexes of the candidates that support the action, in order.
pub open spec fn spec_supporting(cands: Seq<Technology>, a: Action) -> Seq<int>
    decreases cands.len(),
{
    if cands.len() == 0 {
        Seq::empty()
    } else {
        spec_supporting(cands.drop_last(), a) + (if spec_supports_action(cands.last(), a) {
            seq![cands.len() - 1]
        } else {
            Seq::empty()
        })
    }
}

/// Collect the indexes of the candidates that support the action.
pub fn supporting_candidates(cands: &Vec<Technology>, action: &Action) -> (r: Vec<usize>)
    ensures
        r@.map_values(|x: usize| x as int) == spec_supporting(cands@, *action),
{
    let mut out: Vec<usize> = Vec::new();
    let mut i: usize = 0;
    proof {
        assert(cands@.take(0) =~= Seq::<Technology>::empty());
        assert(out@.map_values(|x: usize| x as int) =~= spec_supporting(cands@.take(0), *action));
    }
    while i < cands.len()
        invariant
            i <= cands.len(),
            out@.map_values(|x: usize| x as int) == spec_supporting(cands@.take(i as int), *action),
        decreases cands.len() - i,
    {
        let ghost prev = out@.map_values(|x: usize| x as int);
        if cands[i].supports_action(action) {
            out.push(i);
        }
        proof {
            assert(cands@.take(i + 1).drop_last() =~= cands@.take(i as int));
            assert(cands@.take(i + 1).last() == cands@[i as int]);
            if spec_supports_action(cands@[i as int], *action) {
                assert(out@.map_values(|x: usize| x as int) =~= prev + seq![i as int]);
            } else {
                assert(out@.map_values(|x: usize| x as int) =~= prev + Seq::<int>::empty());
            }
        }
        i = i + 1;
    }
    proof {
        assert(cands@.take(cands.len() as int) =~= cands@);
    }
    out
}

/// Index of the first candidate using technology `t`.
pub open spec fn spec_find_tech(cands: Seq<Technology>, t: Technology) -> Option<int>
    decreases cands.len(),
{
    if cands.len() == 0 {
        None
    } else if cands[0] == t {
        Some(0)
    } else {
        match spec_find_tech(cands.skip(1), t) {
            Some(i) => Some(i + 1),
            None => None,
        }
    }
}

/// The candidate picked by the first priority that occurs among the
/// candidates: priorities are tried in order, and the first candidate
/// carrying the first present priority wins.
pub open spec fn spec_priority_pick(cands: Seq<Technology>, prios: Seq<Technology>) -> Option<int>
    decreases prios.len(),
{
    if prios.len() == 0 {
        None
    } else {
        match spec_find_tech(cands, prios[0]) {
            Some(i) => Some(i),
            None => spec_priority_pick(cands, prios.skip(1)),
        }
    }
}

/// Pick a candidate by the configured priority order: the first
/// priority that occurs among the candidates selects its first
/// carrier.
pub fn pick_by_priority(cands: &Vec<Technology>, prios: &Vec<Technology>) -> (r: Option<usize>)
    ensures
        match r {
            Some(i) => spec_priority_pick(cands@, prios@) == Some(i as int) && i < cands.len(),
            None => spec_priority_pick(cands@, prios@) is None,
        },
{
    let mut p: usize = 0;
    proof {
        assert(prios@.skip(0) =~= prios@);
    }
    while p < prios.len()
        invariant
            p <= prios.len(),
            spec_priority_pick(cands@, prios@) == spec_priority_pick(cands@, prios@.skip(p as int)),
        decreases prios.len() - p,
    {
        proof {
            assert(prios@.skip(p as int)[0] == prios@[p as int]);
            assert(prios@.skip(p as int).skip(1) =~= prios@.skip(p + 1));
        }
        let t = prios[p];
        let mut c: usize = 0;
        proof {
            assert(cands@.skip(0) =~= cands@);
        }
        while c < cands.len()
            invariant
                c <= cands.len(),
                t == prios@[p as int],
                p < prios.len(),
                spec_priority_pick(cands@, prios@) == spec_priority_pick(
                    cands@,
                    prios@.skip(p as int),
                ),
                spec_find_tech(cands@, t) == (match spec_find_tech(cands@.skip(c as int), t) {
                    Some(j) => Some(c + j),
                    None => None::<int>,
                }),
            decreases cands.len() - c,
        {
            proof {
                assert(cands@.skip(c as int)[0] == cands@[c as int]);
                assert(cands@.skip(c as int).skip(1) =~= cands@.skip(c + 1));
            }
            if cands[c] == t {
                return Some(c);
            }
            c = c + 1;
        }
        proof {
            assert(cands@.skip(cands.len() as int) =~= Seq::<Technology>::empty());
        }
        p = p + 1;
    }
    proof {
        assert(prios@.skip(prios.len() as int) =~= Seq::<Technology>::empty());
    }
    None
}

} // verus!
