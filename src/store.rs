use vstd::prelude::*;

use crate::naming::{document_name, plain_text};

verus! {

/// A file of the data root: its bare name and its bytes.
pub struct Document {
    pub name: String,
    pub content: Vec<u8>,
}

impl View for Document {
    type V = (Seq<char>, Seq<u8>);

    open spec fn view(&self) -> (Seq<char>, Seq<u8>) {
        (self.name@, self.content@)
    }
}

/// The content that a load yields for a document that was never saved.
pub open spec fn empty_array() -> Seq<char> {
    seq!['[', ']']
}

/// What a load yields, given what the data root holds under the document's name.
pub open spec fn load_text(found: Option<Seq<char>>) -> Seq<char> {
    match found {
        Some(c) => c,
        None => empty_array(),
    }
}

/// The data root as a map from file name to text.
pub open spec fn lookup(dir: Map<Seq<char>, Seq<char>>, name: Seq<char>) -> Option<Seq<char>> {
    if dir.contains_key(name) {
        Some(dir[name])
    } else {
        None
    }
}

/// The data root after saving `content` under `key`.
pub open spec fn saved(dir: Map<Seq<char>, Seq<char>>, key: Seq<char>, content: Seq<char>) -> Map<
    Seq<char>,
    Seq<char>,
> {
    dir.insert(document_name(key), content)
}

/// What loading `key` yields from the data root `dir`.
pub open spec fn loaded(dir: Map<Seq<char>, Seq<char>>, key: Seq<char>) -> Seq<char> {
    load_text(lookup(dir, document_name(key)))
}

/// The content of a load: the text read from the document's file, or `[]`
/// where there is no such file.
pub fn content_or_default(found: Option<String>) -> (r: String)
    ensures
        r@ == load_text(
            match found {
                Some(c) => Some(c@),
                None => None,
            },
        ),
{
    match found {
        Some(c) => c,
        None => {
            proof {
                reveal_strlit("[]");
            }
            let r = String::from_str("[]");
            assert(r@ =~= empty_array());
            r
        },
    }
}

/// Distinct keys are stored in distinct files.
pub proof fn lemma_document_name_injective(a: Seq<char>, b: Seq<char>)
    requires
        document_name(a) == document_name(b),
    ensures
        a == b,
{
    assert(a =~= document_name(a).subrange(0, a.len() as int));
    assert(b =~= document_name(b).subrange(0, b.len() as int));
}

/// Saving `content` under `key` and then loading `key` yields `content`
/// exactly, and loads of every other key are unchanged.
pub proof fn save_then_load(dir: Map<Seq<char>, Seq<char>>, key: Seq<char>, content: Seq<char>)
    requires
        plain_text(key),
    ensures
        loaded(saved(dir, key, content), key) == content,
        forall|other: Seq<char>|
            other != key ==> loaded(saved(dir, key, content), other) == loaded(dir, other),
{
    assert forall|other: Seq<char>| other != key implies loaded(saved(dir, key, content), other)
        == loaded(dir, other) by {
        if document_name(other) == document_name(key) {
            lemma_document_name_injective(other, key);
        }
    }
}

/// Loading a key whose document was never saved yields `[]`.
pub proof fn load_of_unsaved(dir: Map<Seq<char>, Seq<char>>, key: Seq<char>)
    requires
        !dir.contains_key(document_name(key)),
    ensures
        loaded(dir, key) == empty_array(),
{
}

} // verus!
