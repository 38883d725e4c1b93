use crate::text::chars_of;
use vstd::prelude::*;

verus! {

/// Why a name is refused as the name of a stored file.
#[derive(Clone, Copy, Debug, PartialEq, Eq, Structural)]
pub enum NameError {
    /// The name is empty: it would stand for the root itself.
    Empty,
    /// The name begins with a separator: it would replace the root.
    Absolute,
    /// One of the name's components is `..`: it would climb out of the root.
    Traversal,
}

/// Whether the two characters of `name` from place `i` on are a component
/// `..` of their own: bounded by separators or by the ends of the name.
pub open spec fn is_parent_at(name: Seq<char>, i: int) -> bool {
    &&& 0 <= i
    &&& i + 2 <= name.len()
    &&& name[i] == '.'
    &&& name[i + 1] == '.'
    &&& (i == 0 || name[i - 1] == '/')
    &&& (i + 2 == name.len() || name[i + 2] == '/')
}

/// Whether one of the components of `name`, which `/` separates, is `..`.
pub open spec fn has_parent_component(name: Seq<char>) -> bool {
    exists|i: int| is_parent_at(name, i)
}

/// The reason for which `name` is refused, if it is. Of several reasons the
/// first in the order of [`NameError`] is given.
pub open spec fn name_error(name: Seq<char>) -> Option<NameError> {
    if name.len() == 0 {
        Some(NameError::Empty)
    } else if name[0] == '/' {
        Some(NameError::Absolute)
    } else if has_parent_component(name) {
        Some(NameError::Traversal)
    } else {
        None
    }
}

/// The path of `name` under `root`: the two joined by one separator, which
/// is left out where the root is empty or ends with one.
pub open spec fn joined_path(root: Seq<char>, name: Seq<char>) -> Seq<char> {
    if root.len() == 0 || root.last() == '/' {
        root + name
    } else {
        root + seq!['/'] + name
    }
}

/// Tells whether `name` may name a stored file.
pub fn check_name(name: &str) -> (checked: Result<(), NameError>)
    ensures
        match checked {
            Ok(_) => name_error(name@) is None,
            Err(e) => name_error(name@) == Some(e),
        },
{
    let chars = chars_of(name);
    let n: usize = chars.len();
    if n == 0 {
        return Err(NameError::Empty);
    }
    if chars[0] == '/' {
        return Err(NameError::Absolute);
    }
    let mut i: usize = 0;
    while i < n - 1
        invariant
            n == chars@.len(),
            n > 0,
            chars@ == name@,
            chars@[0] != '/',
            i <= n - 1,
            forall|j: int| 0 <= j < i ==> !is_parent_at(chars@, j),
        decreases n - i,
    {
        if chars[i] == '.' && chars[i + 1] == '.' && (i == 0 || chars[i - 1] == '/') && (i + 2
            == n || chars[i + 2] == '/') {
            assert(is_parent_at(chars@, i as int));
            return Err(NameError::Traversal);
        }
        i += 1;
    }
    Ok(())
}

/// The directory under which every stored file lies.
#[derive(Debug)]
pub struct StorageRoot {
    root: String,
    open_ended: bool,
}

impl View for StorageRoot {
    type V = Seq<char>;

    closed spec fn view(&self) -> Seq<char> {
        self.root@
    }
}

impl StorageRoot {
    #[verifier::type_invariant]
    spec fn consistent(self) -> bool {
        self.open_ended == (self.root@.len() == 0 || self.root@.last() == '/')
    }

    /// The store whose files lie under `root`.
    pub fn new(root: String) -> (store: StorageRoot)
        ensures
            store@ == root@,
    {
        let chars = chars_of(root.as_str());
        let open_ended = chars.len() == 0 || chars[chars.len() - 1] == '/';
        StorageRoot { root, open_ended }
    }

    /// The root's own path.
    pub fn path(&self) -> (path: &str)
        ensures
            path@ == self@,
    {
        self.root.as_str()
    }

    /// The path at which the file called `name` lies, or the reason for which
    /// the name is refused.
    pub fn resolve(&self, name: &str) -> (resolved: Result<String, NameError>)
        ensures
            match resolved {
                Ok(path) => name_error(name@) is None && path@ == joined_path(self@, name@),
                Err(e) => name_error(name@) == Some(e),
            },
    {
        proof {
            use_type_invariant(self);
        }
        match check_name(name) {
            Err(e) => Err(e),
            Ok(_) => {
                let mut path = self.root.clone();
                if !self.open_ended {
                    proof {
                        reveal_strlit("/");
                    }
                    path.append("/");
                    assert("/"@ =~= seq!['/']);
                }
                path.append(name);
                Ok(path)
            },
        }
    }
}

/// Under one root two names lead to one path only if they are one name.
pub proof fn lemma_joined_path_tells_names_apart(root: Seq<char>, a: Seq<char>, b: Seq<char>)
    requires
        joined_path(root, a) == joined_path(root, b),
    ensures
        a == b,
{
    let prefix = if root.len() == 0 || root.last() == '/' {
        root
    } else {
        root + seq!['/']
    };
    assert(joined_path(root, a) =~= prefix + a);
    assert(joined_path(root, b) =~= prefix + b);
    assert((prefix + a).skip(prefix.len() as int) =~= a);
    assert((prefix + b).skip(prefix.len() as int) =~= b);
}

/// The path of an accepted name lies below the root: it begins with the
/// root, what follows the root is not empty and, as far as the name reaches,
/// holds no component `..` that would step back out.
pub proof fn lemma_resolved_path_stays_below_root(root: Seq<char>, name: Seq<char>)
    requires
        name_error(name) is None,
    ensures
        root.is_prefix_of(joined_path(root, name)),
        joined_path(root, name).len() > root.len(),
        name[0] != '/',
        forall|j: int|
            joined_path(root, name).len() - name.len() <= j ==> !#[trigger] is_parent_at(
                joined_path(root, name),
                j,
            ),
{
    let path = joined_path(root, name);
    let shift = path.len() - name.len();
    assert forall|j: int| shift <= j implies !#[trigger] is_parent_at(path, j) by {
        if is_parent_at(path, j) {
            let i = j - shift;
            assert(path[shift + i] == name[i]);
            assert(path[shift + i + 1] == name[i + 1]);
            if i > 0 {
                assert(path[shift + i - 1] == name[i - 1]);
            }
            if i + 2 < name.len() {
                assert(path[shift + i + 2] == name[i + 2]);
            }
            assert(is_parent_at(name, i));
        }
    }
}

} // verus!
