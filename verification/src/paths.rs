//! Filesystem scope checks for tool calls: lexical normalisation of absolute
//! paths, blocked-path rules and the resolution of a requested path against
//! the allowed roots of a workspace.
//!
//! Paths are Unix paths: `/` separates components, empty and `.` components
//! are dropped, and `..` removes the previous component.
use vstd::prelude::*;
use crate::text::{
    chars_of, chars_of_all, concat3, owned, join, join_vecs, push_all, split_char, split_vec, str_views,
    string_of, vec_eq, views,
};

verus! {

pub open spec fn dotdot() -> Seq<char> {
    seq!['.', '.']
}

/// Does `p` start at the root?
pub open spec fn is_abs(p: Seq<char>) -> bool {
    p.len() > 0 && p[0] == '/'
}

pub open spec fn keep_part(c: Seq<char>) -> bool {
    c.len() > 0 && c != seq!['.']
}

/// The components that `p` names, as `Path::components` gives them after the root.
pub open spec fn comps(p: Seq<char>) -> Seq<Seq<char>> {
    split_char(p, '/').filter(|c: Seq<char>| keep_part(c))
}

/// Applies `parts` to the directory stack `stack`; `None` when a `..` climbs above the root.
pub open spec fn fold_parts(stack: Seq<Seq<char>>, parts: Seq<Seq<char>>) -> Option<
    Seq<Seq<char>>,
>
    decreases parts.len(),
{
    if parts.len() == 0 {
        Some(stack)
    } else if parts[0] == dotdot() {
        if stack.len() == 0 {
            None
        } else {
            fold_parts(stack.drop_last(), parts.drop_first())
        }
    } else {
        fold_parts(stack.push(parts[0]), parts.drop_first())
    }
}

/// Lexical normal form of an absolute path, as the components below the root.
pub open spec fn normalize(p: Seq<char>) -> Option<Seq<Seq<char>>> {
    if is_abs(p) {
        fold_parts(seq![], comps(p))
    } else {
        None
    }
}

/// Text of a normalised path.
pub open spec fn render(parts: Seq<Seq<char>>) -> Seq<char> {
    seq!['/'] + join(parts, seq!['/'])
}

/// `Path::join` of a relative path onto `root`.
pub open spec fn join_path(root: Seq<char>, p: Seq<char>) -> Seq<char> {
    if root.len() == 0 {
        p
    } else if root.last() == '/' {
        root + p
    } else {
        root + seq!['/'] + p
    }
}

/// No component of a normal form is empty, `.` or `..`.
pub open spec fn is_normal(parts: Seq<Seq<char>>) -> bool {
    forall|i: int| 0 <= i < parts.len() ==> keep_part(#[trigger] parts[i]) && parts[i] != dotdot()
}

/// `root` normalises to a prefix of `target`.
pub open spec fn root_contains(root: Seq<char>, target: Seq<Seq<char>>) -> bool {
    match normalize(root) {
        Some(n) => n.is_prefix_of(target),
        None => false,
    }
}

/// Some root of `roots` normalises to a prefix of `target`.
pub open spec fn inside_some_root(roots: Seq<Seq<char>>, target: Seq<Seq<char>>) -> bool {
    exists|k: int| 0 <= k < roots.len() && root_contains(#[trigger] roots[k], target)
}

/// The relative rule `rule`, taken below `root`, covers `target`.
pub open spec fn rule_below_root(root: Seq<char>, rule: Seq<char>, target: Seq<Seq<char>>) -> bool {
    match normalize(root) {
        Some(r) => match fold_parts(r, comps(rule)) {
            Some(c) => c.is_prefix_of(target),
            None => false,
        },
        None => false,
    }
}

/// Does the blocked-path rule `rule` cover `target`?  An absolute rule is
/// normalised; a relative one is taken below each of the `roots`.
pub open spec fn rule_blocks(target: Seq<Seq<char>>, rule: Seq<char>, roots: Seq<Seq<char>>) -> bool {
    if is_abs(rule) {
        root_contains(rule, target)
    } else {
        exists|k: int| 0 <= k < roots.len() && rule_below_root(#[trigger] roots[k], rule, target)
    }
}

pub open spec fn blocked_by(target: Seq<Seq<char>>, blocked: Seq<Seq<char>>, roots: Seq<Seq<char>>) -> bool {
    exists|k: int| 0 <= k < blocked.len() && rule_blocks(target, #[trigger] blocked[k], roots)
}

// ───────────────────────────── executable pieces ─────────────────────────────

fn is_dotdot(c: &Vec<char>) -> (r: bool)
    ensures
        r == (c@ == dotdot()),
{
    let r = c.len() == 2 && c[0] == '.' && c[1] == '.';
    proof {
        if c@.len() == 2 && c@[0] == '.' && c@[1] == '.' {
            assert(c@ =~= dotdot());
        }
    }
    r
}

/// Components of a path text.
pub fn comps_vec(p: &Vec<char>) -> (r: Vec<Vec<char>>)
    ensures
        views(r@) == comps(p@),
{
    let pieces = split_vec(p, '/');
    let ghost all = views(pieces@);
    let ghost pred = |c: Seq<char>| keep_part(c);
    let mut r: Vec<Vec<char>> = Vec::new();
    let mut i: usize = 0;
    while i < pieces.len()
        invariant
            i <= pieces.len(),
            all == views(pieces@),
            pred == (|c: Seq<char>| keep_part(c)),
            views(r@) == all.take(i as int).filter(pred),
        decreases pieces.len() - i,
    {
        let piece = &pieces[i];
        let keep = piece.len() > 0 && !(piece.len() == 1 && piece[0] == '.');
        proof {
            assert(all.take(i + 1) =~= all.take(i as int).push(all[i as int]));
            all.take(i as int).lemma_filter_push(all[i as int], pred);
            assert(all[i as int] == piece@);
            if piece@.len() == 1 && piece@[0] == '.' {
                assert(piece@ =~= seq!['.']);
            }
            assert(keep == keep_part(piece@));
        }
        if keep {
            let c = piece.clone();
            proof {
                assert(views(r@.push(c)) =~= views(r@).push(c@));
            }
            r.push(c);
        }
        i = i + 1;
    }
    assert(all.take(pieces.len() as int) =~= all);
    r
}

/// Applies `parts` to `stack`.
pub fn fold_vec(stack: Vec<Vec<char>>, parts: &Vec<Vec<char>>) -> (r: Option<Vec<Vec<char>>>)
    ensures
        match fold_parts(views(stack@), views(parts@)) {
            Some(s) => r matches Some(v) && views(v@) == s,
            None => r is None,
        },
{
    let mut st = stack;
    let mut i: usize = 0;
    assert(views(parts@).skip(0) =~= views(parts@));
    while i < parts.len()
        invariant
            i <= parts.len(),
            fold_parts(views(stack@), views(parts@)) == fold_parts(
                views(st@),
                views(parts@).skip(i as int),
            ),
        decreases parts.len() - i,
    {
        let ghost rest = views(parts@).skip(i as int);
        proof {
            assert(rest[0] == parts@[i as int]@);
            assert(rest.drop_first() =~= views(parts@).skip(i + 1));
        }
        if is_dotdot(&parts[i]) {
            if st.len() == 0 {
                return None;
            }
            let ghost before = st@;
            let _ = st.pop();
            proof {
                assert(views(st@) =~= views(before).drop_last());
            }
        } else {
            let c = parts[i].clone();
            proof {
                assert(views(st@.push(c)) =~= views(st@).push(c@));
            }
            st.push(c);
        }
        i = i + 1;
    }
    Some(st)
}

/// Normal form of an absolute path text; `None` when `p` is relative or climbs above the root.
pub fn normalize_vec(p: &Vec<char>) -> (r: Option<Vec<Vec<char>>>)
    ensures
        match normalize(p@) {
            Some(s) => r matches Some(v) && views(v@) == s,
            None => r is None,
        },
{
    if p.len() == 0 || p[0] != '/' {
        return None;
    }
    let parts = comps_vec(p);
    let empty: Vec<Vec<char>> = Vec::new();
    assert(views(empty@) =~= seq![]);
    fold_vec(empty, &parts)
}

/// Is `a` a prefix of `b`, component by component?
pub fn parts_prefix(a: &Vec<Vec<char>>, b: &Vec<Vec<char>>) -> (r: bool)
    ensures
        r == views(a@).is_prefix_of(views(b@)),
{
    if a.len() > b.len() {
        return false;
    }
    let mut i: usize = 0;
    while i < a.len()
        invariant
            a.len() <= b.len(),
            i <= a.len(),
            forall|j: int| 0 <= j < i ==> views(a@)[j] == views(b@)[j],
        decreases a.len() - i,
    {
        if !vec_eq(&a[i], &b[i]) {
            assert(views(a@)[i as int] != views(b@)[i as int]);
            return false;
        }
        i = i + 1;
    }
    true
}

fn root_contains_exec(root: &Vec<char>, target: &Vec<Vec<char>>) -> (r: bool)
    ensures
        r == root_contains(root@, views(target@)),
{
    match normalize_vec(root) {
        Some(n) => parts_prefix(&n, target),
        None => false,
    }
}

pub(crate) fn inside_some_root_exec(roots: &Vec<Vec<char>>, target: &Vec<Vec<char>>) -> (r: bool)
    ensures
        r == inside_some_root(views(roots@), views(target@)),
{
    let mut i: usize = 0;
    while i < roots.len()
        invariant
            i <= roots.len(),
            forall|k: int| 0 <= k < i ==> !root_contains(#[trigger] views(roots@)[k], views(target@)),
        decreases roots.len() - i,
    {
        if root_contains_exec(&roots[i], target) {
            assert(root_contains(views(roots@)[i as int], views(target@)));
            return true;
        }
        i = i + 1;
    }
    false
}

fn rule_below_root_exec(root: &Vec<char>, rule_parts: &Vec<Vec<char>>, target: &Vec<Vec<char>>) -> (r: bool)
    ensures
        forall|rule: Seq<char>| comps(rule) == views(rule_parts@) ==> r == rule_below_root(root@, rule, views(target@)),
{
    match normalize_vec(root) {
        Some(n) => match fold_vec(n, rule_parts) {
            Some(c) => parts_prefix(&c, target),
            None => false,
        },
        None => false,
    }
}

fn rule_blocks_exec(target: &Vec<Vec<char>>, rule: &Vec<char>, roots: &Vec<Vec<char>>) -> (r: bool)
    ensures
        r == rule_blocks(views(target@), rule@, views(roots@)),
{
    if rule.len() > 0 && rule[0] == '/' {
        return root_contains_exec(rule, target);
    }
    let rule_parts = comps_vec(rule);
    let mut i: usize = 0;
    while i < roots.len()
        invariant
            i <= roots.len(),
            views(rule_parts@) == comps(rule@),
            !is_abs(rule@),
            forall|k: int| 0 <= k < i ==> !rule_below_root(#[trigger] views(roots@)[k], rule@, views(target@)),
        decreases roots.len() - i,
    {
        if rule_below_root_exec(&roots[i], &rule_parts, target) {
            assert(rule_below_root(views(roots@)[i as int], rule@, views(target@)));
            return true;
        }
        i = i + 1;
    }
    false
}

fn blocked_by_exec(target: &Vec<Vec<char>>, blocked: &Vec<Vec<char>>, roots: &Vec<Vec<char>>) -> (r: bool)
    ensures
        r == blocked_by(views(target@), views(blocked@), views(roots@)),
{
    let mut i: usize = 0;
    while i < blocked.len()
        invariant
            i <= blocked.len(),
            forall|k: int| 0 <= k < i ==> !rule_blocks(views(target@), #[trigger] views(blocked@)[k], views(roots@)),
        decreases blocked.len() - i,
    {
        if rule_blocks_exec(target, &blocked[i], roots) {
            assert(rule_blocks(views(target@), views(blocked@)[i as int], views(roots@)));
            return true;
        }
        i = i + 1;
    }
    false
}

fn render_vec(parts: &Vec<Vec<char>>) -> (r: Vec<char>)
    ensures
        r@ == render(views(parts@)),
{
    let sep = vec!['/'];
    assert(sep@ =~= seq!['/']);
    let body = join_vecs(parts, &sep);
    let mut r = vec!['/'];
    push_all(&mut r, &body);
    assert(r@ =~= render(views(parts@)));
    r
}

/// Lexical normal form of an absolute path.
///
/// Errors: `Path '<path>' must be absolute` for a relative path, and
/// `Invalid path '<path>'` when a `..` climbs above the root.
pub fn normalize_absolute_path(path: &str) -> (r: Result<String, String>)
    ensures
        match normalize(path@) {
            Some(n) => r matches Ok(s) && s@ == render(n),
            None => r matches Err(e) && e@ == (if is_abs(path@) {
                "Invalid path '"@ + path@ + "'"@
            } else {
                "Path '"@ + path@ + "' must be absolute"@
            }),
        },
{
    let p = chars_of(path);
    match normalize_vec(&p) {
        Some(n) => {
            let t = render_vec(&n);
            Ok(string_of(t.as_slice()))
        },
        None => {
            if p.len() > 0 && p[0] == '/' {
                Err(concat3("Invalid path '", path, "'"))
            } else {
                Err(concat3("Path '", path, "' must be absolute"))
            }
        },
    }
}

/// Is the (normalised, absolute) `target` covered by one of the `blocked`
/// rules?  Absolute rules are normalised; relative rules are taken below each
/// of the `allowed_roots`.
pub fn is_path_blocked(target: &str, blocked_paths: &Vec<String>, allowed_roots: &Vec<String>) -> (r: bool)
    ensures
        r == (is_abs(target@) && blocked_by(comps(target@), str_views(blocked_paths@), str_views(allowed_roots@))),
{
    let t = chars_of(target);
    if t.len() == 0 || t[0] != '/' {
        return false;
    }
    let parts = comps_vec(&t);
    let blocked = chars_of_all(blocked_paths);
    let roots = chars_of_all(allowed_roots);
    blocked_by_exec(&parts, &blocked, &roots)
}

// ───────────────────────────── resolution of a requested path ─────────────────────────────

/// Why a requested path was refused.
#[derive(Clone, Copy, Debug, PartialEq, Eq)]
pub enum PathDenial {
    NotAbsolute,
    Escapes,
    NoAllowedPaths,
    NoWorkspaceContext,
    WorkspaceWithoutPaths,
    OutsideAllowed,
    Blocked,
}

/// The allowed roots in force: those of the loaded workspace, else the
/// command's own when it names any.
pub open spec fn roots_in_force(loaded: Option<Seq<Seq<char>>>, allowed: Seq<Seq<char>>) -> Option<
    Seq<Seq<char>>,
> {
    match loaded {
        Some(l) => Some(l),
        None => if allowed.len() > 0 {
            Some(allowed)
        } else {
            None
        },
    }
}

/// The path text that normalisation sees: `path` itself when absolute,
/// else `path` joined onto the first root in force.
pub open spec fn subject_path(path: Seq<char>, loaded: Option<Seq<Seq<char>>>, allowed: Seq<Seq<char>>) -> Seq<char> {
    if is_abs(path) {
        path
    } else {
        match roots_in_force(loaded, allowed) {
            Some(ws) => if ws.len() > 0 {
                join_path(ws[0], path)
            } else {
                path
            },
            None => path,
        }
    }
}

/// Where `path` resolves inside the workspace, or why it is refused.
pub open spec fn resolve_spec(
    path: Seq<char>,
    loaded: Option<Seq<Seq<char>>>,
    allowed: Seq<Seq<char>>,
    blocked: Seq<Seq<char>>,
) -> Result<Seq<Seq<char>>, PathDenial> {
    if is_abs(path) {
        match normalize(path) {
            None => Err(PathDenial::Escapes),
            Some(target) => match roots_in_force(loaded, allowed) {
                None => Err(PathDenial::NoAllowedPaths),
                Some(ws) => if ws.len() > 0 && !inside_some_root(ws, target) {
                    Err(PathDenial::OutsideAllowed)
                } else if blocked_by(target, blocked, ws) {
                    Err(PathDenial::Blocked)
                } else {
                    Ok(target)
                },
            },
        }
    } else {
        match roots_in_force(loaded, allowed) {
            None => Err(PathDenial::NoWorkspaceContext),
            Some(ws) => if ws.len() == 0 {
                Err(PathDenial::WorkspaceWithoutPaths)
            } else {
                let joined = join_path(ws[0], path);
                match normalize(joined) {
                    None => if is_abs(joined) {
                        Err(PathDenial::Escapes)
                    } else {
                        Err(PathDenial::NotAbsolute)
                    },
                    Some(target) => if !inside_some_root(ws, target) {
                        Err(PathDenial::OutsideAllowed)
                    } else if blocked_by(target, blocked, ws) {
                        Err(PathDenial::Blocked)
                    } else {
                        Ok(target)
                    },
                }
            },
        }
    }
}

/// Message of a refusal; `subject` is the text that normalisation saw.
pub open spec fn denial_text(d: PathDenial, path: Seq<char>, subject: Seq<char>) -> Seq<char> {
    match d {
        PathDenial::NotAbsolute => "Path '"@ + subject + "' must be absolute"@,
        PathDenial::Escapes => "Invalid path '"@ + subject + "'"@,
        PathDenial::NoAllowedPaths => "No allowed paths configured for this workspace. Configure allowed paths before filesystem operations."@,
        PathDenial::NoWorkspaceContext => "No workspace context found. Please provide an absolute path (e.g. /Users/name/Projects) to start."@,
        PathDenial::WorkspaceWithoutPaths => "Workspace has no allowed paths"@,
        PathDenial::OutsideAllowed => "Path '"@ + path + "' is outside allowed workspace paths"@,
        PathDenial::Blocked => "Path '"@ + path + "' is blocked by Airlock scopes"@,
    }
}

fn join_path_vec(root: &Vec<char>, p: &Vec<char>) -> (r: Vec<char>)
    ensures
        r@ == join_path(root@, p@),
{
    let mut r: Vec<char> = Vec::new();
    if root.len() == 0 {
        push_all(&mut r, p);
        assert(r@ =~= p@);
    } else if root[root.len() - 1] == '/' {
        push_all(&mut r, root);
        push_all(&mut r, p);
        assert(r@ =~= root@ + p@);
    } else {
        push_all(&mut r, root);
        r.push('/');
        push_all(&mut r, p);
        assert(r@ =~= root@ + seq!['/'] + p@);
    }
    r
}

fn after_roots(
    target: Vec<Vec<char>>,
    ws: &Vec<Vec<char>>,
    blocked: &Vec<Vec<char>>,
    check_roots: bool,
) -> (r: Result<Vec<Vec<char>>, PathDenial>)
    ensures
        (if check_roots && !inside_some_root(views(ws@), views(target@)) {
            r == Err::<Vec<Vec<char>>, PathDenial>(PathDenial::OutsideAllowed)
        } else if blocked_by(views(target@), views(blocked@), views(ws@)) {
            r == Err::<Vec<Vec<char>>, PathDenial>(PathDenial::Blocked)
        } else {
            r matches Ok(t) && views(t@) == views(target@)
        }),
{
    if check_roots && !inside_some_root_exec(ws, &target) {
        return Err(PathDenial::OutsideAllowed);
    }
    if blocked_by_exec(&target, blocked, ws) {
        return Err(PathDenial::Blocked);
    }
    Ok(target)
}

fn resolve_target(
    path: &Vec<char>,
    loaded: Option<&Vec<Vec<char>>>,
    allowed: &Vec<Vec<char>>,
    blocked: &Vec<Vec<char>>,
) -> (r: Result<Vec<Vec<char>>, PathDenial>)
    ensures
        match resolve_spec(
            path@,
            match loaded {
                Some(l) => Some(views(l@)),
                None => None,
            },
            views(allowed@),
            views(blocked@),
        ) {
            Ok(t) => r matches Ok(v) && views(v@) == t,
            Err(d) => r == Err::<Vec<Vec<char>>, PathDenial>(d),
        },
{
    let ws: &Vec<Vec<char>> = match loaded {
        Some(l) => l,
        None => {
            if allowed.len() == 0 {
                if path.len() > 0 && path[0] == '/' {
                    return match normalize_vec(path) {
                        None => Err(PathDenial::Escapes),
                        Some(_) => Err(PathDenial::NoAllowedPaths),
                    };
                }
                return Err(PathDenial::NoWorkspaceContext);
            }
            allowed
        },
    };
    if path.len() > 0 && path[0] == '/' {
        match normalize_vec(path) {
            None => Err(PathDenial::Escapes),
            Some(target) => after_roots(target, ws, blocked, ws.len() > 0),
        }
    } else {
        if ws.len() == 0 {
            return Err(PathDenial::WorkspaceWithoutPaths);
        }
        let joined = join_path_vec(&ws[0], path);
        match normalize_vec(&joined) {
            None => {
                if joined.len() > 0 && joined[0] == '/' {
                    Err(PathDenial::Escapes)
                } else {
                    Err(PathDenial::NotAbsolute)
                }
            },
            Some(target) => after_roots(target, ws, blocked, true),
        }
    }
}

fn denial_message(d: PathDenial, path: &str, subject: &Vec<char>) -> (r: String)
    ensures
        r@ == denial_text(d, path@, subject@),
{
    let s = string_of(subject.as_slice());
    match d {
        PathDenial::NotAbsolute => concat3("Path '", s.as_str(), "' must be absolute"),
        PathDenial::Escapes => concat3("Invalid path '", s.as_str(), "'"),
        PathDenial::NoAllowedPaths => owned(
            "No allowed paths configured for this workspace. Configure allowed paths before filesystem operations.",
        ),
        PathDenial::NoWorkspaceContext => owned(
            "No workspace context found. Please provide an absolute path (e.g. /Users/name/Projects) to start.",
        ),
        PathDenial::WorkspaceWithoutPaths => owned("Workspace has no allowed paths"),
        PathDenial::OutsideAllowed => concat3("Path '", path, "' is outside allowed workspace paths"),
        PathDenial::Blocked => concat3("Path '", path, "' is blocked by Airlock scopes"),
    }
}

/// Resolves the path that a filesystem tool asked for.
///
/// `workspace_roots` holds the allowed roots of the workspace when it could be
/// loaded; otherwise the command's own `allowed_paths` stand in.  An absolute
/// path is normalised and must lie below one of the roots (when there are any);
/// a relative path is joined onto the first root.  In both cases a blocked
/// rule that covers the target refuses it.  The result is the normalised path.
pub fn resolve_path(
    path: &str,
    workspace_roots: Option<&Vec<String>>,
    allowed_paths: &Vec<String>,
    blocked_paths: &Vec<String>,
) -> (r: Result<String, String>)
    ensures
        ({
            let loaded = match workspace_roots {
                Some(l) => Some(str_views(l@)),
                None => None,
            };
            match resolve_spec(path@, loaded, str_views(allowed_paths@), str_views(blocked_paths@)) {
                Ok(t) => r matches Ok(s) && s@ == render(t),
                Err(d) => r matches Err(e) && e@ == denial_text(
                    d,
                    path@,
                    subject_path(path@, loaded, str_views(allowed_paths@)),
                ),
            }
        }),
{
    let p = chars_of(path);
    let allowed = chars_of_all(allowed_paths);
    let blocked = chars_of_all(blocked_paths);
    let loaded_vec: Option<Vec<Vec<char>>> = match workspace_roots {
        Some(l) => Some(chars_of_all(l)),
        None => None,
    };
    let loaded: Option<&Vec<Vec<char>>> = match &loaded_vec {
        Some(l) => Some(l),
        None => None,
    };
    match resolve_target(&p, loaded, &allowed, &blocked) {
        Ok(t) => {
            let text = render_vec(&t);
            Ok(string_of(text.as_slice()))
        },
        Err(d) => {
            let subject: Vec<char> = if p.len() > 0 && p[0] == '/' {
                p
            } else {
                let ws: &Vec<Vec<char>> = match loaded {
                    Some(l) => l,
                    None => &allowed,
                };
                if ws.len() > 0 {
                    join_path_vec(&ws[0], &p)
                } else {
                    p
                }
            };
            Err(denial_message(d, path, &subject))
        },
    }
}

// ───────────────────────────── laws ─────────────────────────────

proof fn lemma_fold_normal(stack: Seq<Seq<char>>, parts: Seq<Seq<char>>)
    requires
        is_normal(stack),
        forall|i: int| 0 <= i < parts.len() ==> keep_part(#[trigger] parts[i]),
    ensures
        fold_parts(stack, parts) matches Some(n) ==> is_normal(n),
    decreases parts.len(),
{
    if parts.len() > 0 {
        if parts[0] == dotdot() {
            if stack.len() > 0 {
                lemma_fold_normal(stack.drop_last(), parts.drop_first());
            }
        } else {
            assert(is_normal(stack.push(parts[0])));
            lemma_fold_normal(stack.push(parts[0]), parts.drop_first());
        }
    }
}

/// A normalised path has no empty, `.` or `..` component.
pub proof fn law_normal_form_is_normal(p: Seq<char>)
    ensures
        normalize(p) matches Some(n) ==> is_normal(n),
{
    if is_abs(p) {
        let pred = |c: Seq<char>| keep_part(c);
        broadcast use vstd::seq_lib::group_filter_ensures;
        assert(is_normal(seq![]));
        lemma_fold_normal(seq![], comps(p));
    }
}

/// A refused path is never handed out, and a path covered by a blocked rule
/// is refused even when it lies inside an allowed root: when resolution
/// succeeds, the result lies below a root in force (if any) and no blocked
/// rule covers it.
pub proof fn law_resolved_paths_respect_scopes(
    path: Seq<char>,
    loaded: Option<Seq<Seq<char>>>,
    allowed: Seq<Seq<char>>,
    blocked: Seq<Seq<char>>,
)
    ensures
        resolve_spec(path, loaded, allowed, blocked) matches Ok(t) ==> ({
            let ws = roots_in_force(loaded, allowed)->0;
            &&& roots_in_force(loaded, allowed) is Some
            &&& (ws.len() > 0 ==> inside_some_root(ws, t))
            &&& !blocked_by(t, blocked, ws)
            &&& is_normal(t)
        }),
{
    law_normal_form_is_normal(path);
    match roots_in_force(loaded, allowed) {
        Some(ws) => {
            if ws.len() > 0 {
                law_normal_form_is_normal(join_path(ws[0], path));
            }
        },
        None => {},
    }
}

} // verus!
