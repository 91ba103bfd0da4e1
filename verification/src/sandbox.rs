//! A universe is a directory tree; a zero-claw is an agent confined to one.

use vstd::prelude::*;

verus! {

/// Whether `path` lies under `base`, whole component by whole component, as
/// `std::path::Path::starts_with` decides it for the two paths.
pub uninterp spec fn path_starts_with(path: Seq<char>, base: Seq<char>) -> bool;

/// The debug rendering of a path (quoted and escaped), as
/// `<std::path::Path as std::fmt::Debug>::fmt` writes it.
pub uninterp spec fn path_debug(path: Seq<char>) -> Seq<char>;

/// Calls `std::path::Path::starts_with` on the two paths. The contract
/// claims only that the answer is a function of the two paths' text, named
/// `path_starts_with`; what that function is (component-wise prefix) is left
/// to the standard library.
#[verifier::external_body]
fn path_has_prefix(path: &str, base: &str) -> (r: bool)
    ensures
        r == path_starts_with(path@, base@),
{
    std::path::Path::new(path).starts_with(std::path::Path::new(base))
}

/// Renders a path with `Debug` for `std::path::Path`. The contract claims
/// only that the text is a function of the path's text, named `path_debug`.
#[verifier::external_body]
fn debug_path(path: &str) -> (s: String)
    ensures
        s@ == path_debug(path@),
{
    format!("{:?}", std::path::Path::new(path))
}

/// The message of a granted access.
pub open spec fn granted_message(path: Seq<char>) -> Seq<char> {
    seq!['a', 'c', 'c', 'e', 's', 's', ' ', 'g', 'r', 'a', 'n', 't', 'e', 'd', ':', ' '] + path_debug(
        path,
    )
}

/// The message of a refused access.
pub open spec fn violation_message(path: Seq<char>) -> Seq<char> {
    seq![
        's',
        'a',
        'n',
        'd',
        'b',
        'o',
        'x',
        ' ',
        'v',
        'i',
        'o',
        'l',
        'a',
        't',
        'i',
        'o',
        'n',
        ':',
        ' ',
    ] + path_debug(path) + seq![
        ' ',
        'o',
        'u',
        't',
        's',
        'i',
        'd',
        'e',
        ' ',
        'u',
        'n',
        'i',
        'v',
        'e',
        'r',
        's',
        'e',
    ]
}

/// The directory tree an agent lives in, named by its root path.
pub struct Universe {
    root: String,
}

impl View for Universe {
    type V = Seq<char>;

    /// The root path.
    closed spec fn view(&self) -> Seq<char> {
        self.root@
    }
}

impl Universe {
    /// The universe rooted at `root` (the directory itself is made by the
    /// caller).
    pub fn new(root: &str) -> (u: Self)
        ensures
            u@ == root@,
    {
        Universe { root: root.to_owned() }
    }

    pub fn root(&self) -> (r: &str)
        ensures
            r@ == self@,
    {
        self.root.as_str()
    }

    /// Whether `path` lies in this universe.
    pub fn is_within(&self, path: &str) -> (r: bool)
        ensures
            r == path_starts_with(path@, self@),
    {
        path_has_prefix(path, self.root.as_str())
    }
}

/// An agent spawned inside a universe; it may reach only paths under the
/// universe's root.
pub struct ZeroClaw {
    id: String,
    universe: Universe,
    allowed_paths: Vec<String>,
}

/// A zero-claw as plain values: its id and the root of its universe.
pub struct ZeroClawView {
    pub id: Seq<char>,
    pub root: Seq<char>,
}

impl View for ZeroClaw {
    type V = ZeroClawView;

    closed spec fn view(&self) -> ZeroClawView {
        ZeroClawView { id: self.id@, root: self.universe@ }
    }
}

impl ZeroClaw {
    /// The paths the agent is allowed under are exactly its universe's root.
    #[verifier::type_invariant]
    spec fn allowed_is_root(self) -> bool {
        &&& self.allowed_paths@.len() == 1
        &&& self.allowed_paths@[0]@ == self.universe@
    }

    pub fn spawn(id: &str, universe: Universe) -> (claw: Self)
        ensures
            claw@.id == id@,
            claw@.root == universe@,
    {
        let root = universe.root.clone();
        let mut allowed_paths: Vec<String> = Vec::new();
        allowed_paths.push(root);
        ZeroClaw { id: id.to_owned(), universe, allowed_paths }
    }

    /// Decides an access to `path`, whose canonical form (the path with
    /// links and dots resolved, or the path itself where it does not exist)
    /// is `canonical`: granted exactly when the canonical path lies in the
    /// universe.
    pub fn try_access(&self, path: &str, canonical: &str) -> (r: Result<String, String>)
        ensures
            r is Ok <==> path_starts_with(canonical@, self@.root),
            r matches Ok(msg) ==> msg@ == granted_message(path@),
            r matches Err(msg) ==> msg@ == violation_message(path@),
    {
        proof {
            use_type_invariant(self);
        }
        let mut granted = self.universe.is_within(canonical);
        let mut i: usize = 0;
        while i < self.allowed_paths.len() && !granted
            invariant
                0 <= i <= self.allowed_paths.len(),
                self.allowed_paths@.len() == 1,
                self.allowed_paths@[0]@ == self.universe@,
                granted ==> path_starts_with(canonical@, self.universe@),
                !granted ==> !path_starts_with(canonical@, self.universe@),
            decreases self.allowed_paths.len() - i,
        {
            granted = path_has_prefix(canonical, self.allowed_paths[i].as_str());
            i = i + 1;
        }
        let rendered = debug_path(path);
        if granted {
            proof {
                reveal_strlit("access granted: ");
            }
            let mut msg = "access granted: ".to_owned();
            msg.append(rendered.as_str());
            assert(msg@ =~= granted_message(path@));
            Ok(msg)
        } else {
            proof {
                reveal_strlit("sandbox violation: ");
                reveal_strlit(" outside universe");
            }
            let mut msg = "sandbox violation: ".to_owned();
            msg.append(rendered.as_str());
            msg.append(" outside universe");
            assert(msg@ =~= violation_message(path@));
            Err(msg)
        }
    }

    pub fn id(&self) -> (r: &str)
        ensures
            r@ == self@.id,
    {
        self.id.as_str()
    }

    pub fn universe_root(&self) -> (r: &str)
        ensures
            r@ == self@.root,
    {
        self.universe.root()
    }
}

} // verus!
