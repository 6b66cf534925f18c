//! The language registry: a fixed set of language descriptions in which
//! no name or alias belongs to two languages.

use crate::config::languagefile::{
    all_aliases, all_names, builtin_described, first_match, is_first_answering, names_and_aliases,
    position, resolved, views, LanguageFile, LanguageFileView,
};
use crate::error::{Error, Failure};
use crate::text::{lowercase, texts};
use vstd::prelude::*;

verus! {

/// Whether two different languages of `files` go by `name`.
pub open spec fn collides(files: Seq<LanguageFileView>, name: Seq<char>) -> bool {
    exists|first: int, second: int|
        0 <= first < second < files.len() && #[trigger] files[first].answers_to(name) && #[trigger] files[second].answers_to(name)
}

/// Whether no name or alias is shared by two languages of `files`.
pub open spec fn disjoint(files: Seq<LanguageFileView>) -> bool {
    forall|name: Seq<char>| !#[trigger] collides(files, name)
}

/// The languages that the library itself describes, where their
/// documents are complete and no two of them share a name.
pub open spec fn builtin_registry() -> Option<Seq<LanguageFileView>> {
    if builtin_described() is Some && disjoint(builtin_described()->0) {
        builtin_described()
    } else {
        None
    }
}

/// Whether `failure` says why the library's own languages make no
/// registry: a document is not complete, or two languages share the name
/// that the failure holds.
pub open spec fn is_builtin_failure(failure: Failure) -> bool {
    if builtin_described() is None {
        failure == Failure::MalformedDescriptor
    } else {
        exists|name: Seq<char>|
            failure == Failure::NameCollision(name) && #[trigger] collides(
                builtin_described()->0,
                name,
            )
    }
}

/// Lookup does not tell upper case from lower case: two spellings with
/// one lowercase form find the same language, or both find none.
pub proof fn lemma_resolve_ignores_case(
    files: Seq<LanguageFileView>,
    one: Seq<char>,
    other: Seq<char>,
)
    requires
        lowercase(one) == lowercase(other),
    ensures
        resolved(files, one) is Ok <==> resolved(files, other) is Ok,
        resolved(files, one) is Ok ==> resolved(files, one)->Ok_0 == resolved(files, other)->Ok_0,
{
}

/// Where no two languages share a name or an alias, a spelling whose
/// lowercase form is a name or an alias of a language finds that
/// language and no other.
pub proof fn lemma_resolve_finds_its_language(
    files: Seq<LanguageFileView>,
    at: int,
    given: Seq<char>,
)
    requires
        disjoint(files),
        0 <= at < files.len(),
        files[at].answers_to(lowercase(given)),
    ensures
        resolved(files, given) == Ok::<LanguageFileView, Failure>(files[at]),
{
    let name = lowercase(given);
    assert(!collides(files, name));
    assert forall|before: int| 0 <= before < at implies !#[trigger] files[before].answers_to(
        name,
    ) by {
        if files[before].answers_to(name) {
            assert(collides(files, name));
        }
    }
    assert(is_first_answering(files, name, at));
}

/// A set of language descriptions, looked up by name or alias.
#[derive(Debug)]
pub struct Registry {
    pub langfiles: Vec<LanguageFile>,
}

impl View for Registry {
    type V = Seq<LanguageFileView>;

    open spec fn view(&self) -> Seq<LanguageFileView> {
        views(self.langfiles@)
    }
}

/// A name or alias of `second` by which `first` goes too, if there is
/// one.
fn shared_name<'a>(first: &LanguageFile, second: &'a LanguageFile) -> (shared: Option<&'a String>)
    ensures
        shared matches Some(name) ==> first@.answers_to(name@) && second@.answers_to(name@),
        shared is None ==> forall|name: Seq<char>|
            !(first@.answers_to(name) && #[trigger] second@.answers_to(name)),
{
    if first.answers_to(second.language.name.as_str()) {
        return Some(&second.language.name);
    }
    let aliases = &second.language.aliases;
    let mut k: usize = 0;
    while k < aliases.len()
        invariant
            k <= aliases.len(),
            aliases == &second.language.aliases,
            forall|a: int| 0 <= a < k ==> !first@.answers_to(#[trigger] texts(aliases@)[a]),
        decreases aliases.len() - k,
    {
        if first.answers_to(aliases[k].as_str()) {
            assert(texts(aliases@)[k as int] == aliases@[k as int]@);
            return Some(&aliases[k]);
        }
        k += 1;
    }
    None
}

impl Registry {
    /// Whether the registry keeps its rule: no two of its languages share
    /// a name or an alias.
    pub open spec fn wf(&self) -> bool {
        disjoint(self@)
    }

    /// The registry of `langfiles`, in their order. Descriptions of which
    /// two go by one name make no registry; the failure holds such a
    /// name.
    pub fn new(langfiles: Vec<LanguageFile>) -> (made: Result<Registry, Error>)
        ensures
            made is Ok <==> disjoint(views(langfiles@)),
            made matches Ok(registry) ==> registry.langfiles == langfiles && registry.wf(),
            made matches Err(e) ==> exists|name: Seq<char>|
                e@ == Failure::NameCollision(name) && #[trigger] collides(views(langfiles@), name),
    {
        let ghost files = views(langfiles@);
        let mut second: usize = 0;
        while second < langfiles.len()
            invariant
                second <= langfiles.len(),
                files == views(langfiles@),
                forall|i: int, j: int, name: Seq<char>|
                    0 <= i < j < second && #[trigger] files[i].answers_to(name) ==> !#[trigger] files[j].answers_to(name),
            decreases langfiles.len() - second,
        {
            let mut first: usize = 0;
            while first < second
                invariant
                    first <= second < langfiles.len(),
                    files == views(langfiles@),
                    forall|i: int, name: Seq<char>|
                        0 <= i < first && #[trigger] files[i].answers_to(name) ==> !files[second as int].answers_to(
                            name,
                        ),
                decreases second - first,
            {
                match shared_name(&langfiles[first], &langfiles[second]) {
                    Some(name) => {
                        assert(files[first as int].answers_to(name@) && files[second as int].answers_to(
                            name@,
                        ));
                        assert(collides(files, name@));
                        return Err(Error::NameCollision(name.clone()));
                    },
                    None => {},
                }
                first += 1;
            }
            second += 1;
        }
        assert forall|name: Seq<char>| !#[trigger] collides(files, name) by {
            if collides(files, name) {
                let (i, j) = choose|i: int, j: int|
                    0 <= i < j < files.len() && #[trigger] files[i].answers_to(name) && #[trigger] files[j].answers_to(name);
                assert(!files[j].answers_to(name));
            }
        }
        Ok(Registry { langfiles })
    }

    /// The registry of the languages that the library itself describes.
    pub fn builtin() -> (made: Result<Registry, Error>)
        ensures
            made is Ok <==> builtin_registry() is Some,
            made matches Ok(registry) ==> Some(registry@) == builtin_registry() && registry.wf(),
            made matches Err(e) ==> is_builtin_failure(e@),
    {
        match LanguageFile::langfiles() {
            Ok(files) => Registry::new(files),
            Err(e) => Err(e),
        }
    }

    /// The language that goes by `name_or_alias`. Upper and lower case
    /// are not told apart: the lowercase form of what was given must be a
    /// language's name or alias, letter for letter. Where several
    /// languages answer, the first is taken. The failure holds what was
    /// given, as it was written.
    pub fn resolve(&self, name_or_alias: &str) -> (found: Result<&LanguageFile, Error>)
        ensures
            found matches Ok(file) ==> resolved(self@, name_or_alias@) == Ok::<
                LanguageFileView,
                Failure,
            >(file@),
            found matches Ok(file) ==> first_match(self@, lowercase(name_or_alias@)) is Some
                && *file == self.langfiles@[first_match(self@, lowercase(name_or_alias@))->0],
            found matches Err(e) ==> resolved(self@, name_or_alias@) == Err::<
                LanguageFileView,
                Failure,
            >(e@),
    {
        let lowered = name_or_alias.to_lowercase();
        match position(&self.langfiles, lowered.as_str()) {
            Some(at) => Ok(&self.langfiles[at]),
            None => Err(Error::UnknownLanguage(name_or_alias.to_owned())),
        }
    }

    /// The names of the registry's languages and, apart from them, their
    /// aliases, for listing to users.
    pub fn all_names_and_aliases(&self) -> (listed: (Vec<String>, Vec<String>))
        ensures
            texts(listed.0@) == all_names(self@),
            texts(listed.1@) == all_aliases(self@),
    {
        names_and_aliases(&self.langfiles)
    }
}

} // verus!
