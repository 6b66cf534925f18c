//! Absolute directory paths as sequences of component names.

use crate::text::{chars_of, lemma_texts_push, same_text, texts};
use vstd::prelude::*;
use vstd::string::*;

verus! {

/// An absolute path, held as the names of its components below the
/// filesystem root. The empty sequence is the filesystem root itself.
#[derive(Debug, PartialEq, Eq)]
pub struct AbsolutePath {
    pub components: Vec<String>,
}

impl View for AbsolutePath {
    type V = Seq<Seq<char>>;

    open spec fn view(&self) -> Seq<Seq<char>> {
        texts(self.components@)
    }
}

/// The text of a path below the filesystem root: each component after a
/// `/`.
pub open spec fn render_components(components: Seq<Seq<char>>) -> Seq<char>
    decreases components.len(),
{
    if components.len() == 0 {
        Seq::empty()
    } else {
        render_components(components.drop_last()) + seq!['/'] + components.last()
    }
}

/// The text of an absolute path; the filesystem root is `/`.
pub open spec fn render(components: Seq<Seq<char>>) -> Seq<char> {
    if components.len() == 0 {
        seq!['/']
    } else {
        render_components(components)
    }
}

/// Whether `name` can be the name of one file or directory: it is not
/// empty, holds no `/`, and is neither `.` nor `..`.
pub open spec fn is_plain_name(name: Seq<char>) -> bool {
    &&& name.len() > 0
    &&& !name.contains('/')
    &&& name != "."@
    &&& name != ".."@
}

/// Whether `name` can be the name of one file or directory.
pub fn is_plain_name_text(name: &str) -> (plain: bool)
    ensures
        plain == is_plain_name(name@),
{
    if same_text(name, ".") || same_text(name, "..") {
        return false;
    }
    let chars = chars_of(name);
    if chars.len() == 0 {
        return false;
    }
    let mut i: usize = 0;
    while i < chars.len()
        invariant
            i <= chars.len(),
            chars@ == name@,
            forall|k: int| 0 <= k < i ==> chars@[k] != '/',
        decreases chars.len() - i,
    {
        if chars[i] == '/' {
            assert(name@[i as int] == '/');
            return false;
        }
        i += 1;
    }
    true
}

/// Whether `at` is `root` or lies below it, under names that are each
/// the name of one directory or file.
pub open spec fn is_below(at: Seq<Seq<char>>, root: Seq<Seq<char>>) -> bool {
    &&& root.is_prefix_of(at)
    &&& forall|i: int| root.len() <= i < at.len() ==> is_plain_name(#[trigger] at[i])
}

impl AbsolutePath {
    /// Whether this path is `root` or lies below it, under names that
    /// are each the name of one directory or file.
    pub fn is_below(&self, root: &AbsolutePath) -> (below: bool)
        ensures
            below == is_below(self@, root@),
    {
        if !self.starts_with(root) {
            return false;
        }
        let mut i: usize = root.components.len();
        while i < self.components.len()
            invariant
                root.components.len() <= i <= self.components.len(),
                forall|k: int| root@.len() <= k < i ==> is_plain_name(#[trigger] self@[k]),
            decreases self.components.len() - i,
        {
            if !is_plain_name_text(self.components[i].as_str()) {
                assert(!is_plain_name(self@[i as int]));
                return false;
            }
            i += 1;
        }
        true
    }

    /// Whether every component is the name of one directory or file, so
    /// that the path names the same place written out with `/`.
    pub open spec fn is_plain(&self) -> bool {
        forall|i: int| 0 <= i < self@.len() ==> is_plain_name(#[trigger] self@[i])
    }

    /// Whether every component is the name of one directory or file.
    pub fn has_plain_names(&self) -> (plain: bool)
        ensures
            plain == self.is_plain(),
    {
        let mut i: usize = 0;
        while i < self.components.len()
            invariant
                i <= self.components.len(),
                forall|k: int| 0 <= k < i ==> is_plain_name(#[trigger] self@[k]),
            decreases self.components.len() - i,
        {
            if !is_plain_name_text(self.components[i].as_str()) {
                assert(!is_plain_name(self@[i as int]));
                return false;
            }
            i += 1;
        }
        true
    }

    /// The path made of `components`, outermost first.
    pub fn new(components: Vec<String>) -> (path: AbsolutePath)
        ensures
            path@ == texts(components@),
    {
        AbsolutePath { components }
    }

    /// A path equal to this one.
    pub fn duplicate(&self) -> (copy: AbsolutePath)
        ensures
            copy@ == self@,
    {
        let mut components: Vec<String> = Vec::new();
        let mut i: usize = 0;
        while i < self.components.len()
            invariant
                i <= self.components.len(),
                texts(components@) == self@.take(i as int),
            decreases self.components.len() - i,
        {
            proof {
                lemma_texts_push(components@, self.components@[i as int]);
                assert(self@.take(i + 1) =~= self@.take(i as int).push(self@[i as int]));
            }
            components.push(self.components[i].clone());
            i += 1;
        }
        assert(self@.take(self@.len() as int) =~= self@);
        AbsolutePath { components }
    }

    /// The path of the entry `name` in this directory.
    pub fn join(&self, name: &str) -> (child: AbsolutePath)
        ensures
            child@ == self@.push(name@),
    {
        let mut child = self.duplicate();
        let last = name.to_owned();
        proof {
            lemma_texts_push(child.components@, last);
        }
        child.components.push(last);
        child
    }

    /// The directory that holds this path; the filesystem root has none.
    pub fn parent(&self) -> (up: Option<AbsolutePath>)
        ensures
            self@.len() == 0 ==> up is None,
            self@.len() > 0 ==> up is Some && up->0@ == self@.drop_last(),
    {
        if self.components.len() == 0 {
            return None;
        }
        let mut up = self.duplicate();
        up.components.pop();
        assert(up@ =~= self@.drop_last());
        Some(up)
    }

    /// The path as text, with `/` before each component.
    pub fn to_string(&self) -> (text: String)
        ensures
            text@ == render(self@),
    {
        if self.components.len() == 0 {
            let root = "/".to_owned();
            proof {
                reveal_strlit("/");
                assert(root@ =~= seq!['/']);
            }
            return root;
        }
        let mut text = String::new();
        let mut i: usize = 0;
        assert(self@.take(0) =~= Seq::<Seq<char>>::empty());
        while i < self.components.len()
            invariant
                i <= self.components.len(),
                text@ == render_components(self@.take(i as int)),
            decreases self.components.len() - i,
        {
            proof {
                reveal_strlit("/");
                assert("/"@ =~= seq!['/']);
                assert(self@.take(i + 1).drop_last() =~= self@.take(i as int));
                assert(self@.take(i + 1).last() == self@[i as int]);
            }
            text.append("/");
            text.append(self.components[i].as_str());
            i += 1;
        }
        assert(self@.take(self@.len() as int) =~= self@);
        text
    }

    /// Whether `base` is this path or one of its ancestors, compared
    /// component by component.
    pub fn starts_with(&self, base: &AbsolutePath) -> (inside: bool)
        ensures
            inside == base@.is_prefix_of(self@),
    {
        if base.components.len() > self.components.len() {
            return false;
        }
        let mut i: usize = 0;
        while i < base.components.len()
            invariant
                i <= base.components.len() <= self.components.len(),
                forall|k: int| 0 <= k < i ==> base@[k] == self@[k],
            decreases base.components.len() - i,
        {
            if base.components[i] != self.components[i] {
                assert(base@[i as int] != self@[i as int]);
                assert(self@.subrange(0, base@.len() as int)[i as int] == self@[i as int]);
                return false;
            }
            i += 1;
        }
        assert(base@ =~= self@.subrange(0, base@.len() as int));
        true
    }
}

} // verus!
