//! Where a file goes in the container.

use vstd::prelude::*;

verus! {

/// The key of the file called `name` under `prefix`: the prefix, one `/`,
/// then the name.
pub open spec fn key_of(prefix: Seq<char>, name: Seq<char>) -> Seq<char> {
    prefix + seq!['/'] + name
}

/// Builds the destination key of the file called `name` under `prefix`.
pub fn destination_key(prefix: &str, name: &str) -> (key: String)
    ensures
        key@ == key_of(prefix@, name@),
{
    proof {
        reveal_strlit("/");
    }
    let mut key = String::from_str(prefix);
    key.append("/");
    key.append(name);
    proof {
        assert("/"@ =~= seq!['/']);
    }
    key
}

/// A key is the prefix and the name with exactly one separator between them.
pub proof fn lemma_key_shape(prefix: Seq<char>, name: Seq<char>)
    ensures
        key_of(prefix, name).len() == prefix.len() + 1 + name.len(),
        key_of(prefix, name).subrange(0, prefix.len() as int) == prefix,
        key_of(prefix, name)[prefix.len() as int] == '/',
        key_of(prefix, name).subrange(prefix.len() as int + 1, key_of(prefix, name).len() as int) == name,
{
    let key = key_of(prefix, name);
    assert(key.subrange(0, prefix.len() as int) =~= prefix);
    assert(key.subrange(prefix.len() as int + 1, key.len() as int) =~= name);
}

/// Under one prefix, two files share a key only if they share a name.
pub proof fn lemma_key_determines_name(prefix: Seq<char>, a: Seq<char>, b: Seq<char>)
    requires
        key_of(prefix, a) == key_of(prefix, b),
    ensures
        a == b,
{
    lemma_key_shape(prefix, a);
    lemma_key_shape(prefix, b);
}

} // verus!
