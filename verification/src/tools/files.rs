//! Whether generated files are as they should be.
use crate::text;
use vstd::prelude::*;

verus! {

/// What is wrong with a file.
#[derive(Clone, Copy, Debug, PartialEq, Eq, Structural)]
pub enum Finding {
    OutOfDate,
    NotFound,
    /// Nothing is known that would be written there.
    UnknownCrd,
}

/// Compares a file, if it is there, with what it should hold.
pub fn compare(got: Option<&str>, want: &str) -> (r: Option<Finding>)
    ensures
        r == (match got {
            Some(got) => if got@ == want@ {
                None
            } else {
                Some(Finding::OutOfDate)
            },
            None => Some(Finding::NotFound),
        }),
{
    match got {
        Some(got) => if text::same(got, want) {
            None
        } else {
            Some(Finding::OutOfDate)
        },
        None => Some(Finding::NotFound),
    }
}

impl Finding {
    /// The finding in words.
    pub open spec fn words(self) -> Seq<char> {
        match self {
            Finding::OutOfDate => " is out of date — run: task generate"@,
            Finding::NotFound => " not found — run: task generate"@,
            Finding::UnknownCrd => " is not a known CRD — run: task generate"@,
        }
    }

    /// Says what is wrong with the file at `path`.
    pub fn message(self, path: &str) -> (r: String)
        ensures
            r@ == path@ + self.words(),
    {
        text::cat2(
            path,
            match self {
                Finding::OutOfDate => " is out of date — run: task generate",
                Finding::NotFound => " not found — run: task generate",
                Finding::UnknownCrd => " is not a known CRD — run: task generate",
            },
        )
    }
}

/// A file name ends in `.yaml`, and is more than that.
pub open spec fn is_yaml(name: Seq<char>) -> bool {
    name.len() > 5 && ".yaml"@.is_suffix_of(name)
}

fn has_yaml_extension(name: &str) -> (r: bool)
    ensures
        r == is_yaml(name@),
{
    proof {
        reveal_strlit(".yaml");
    }
    let n: usize = name.unicode_len();
    if n <= 5 {
        return false;
    }
    let r: bool = text::same(name.substring_char(n - 5, n), ".yaml");
    proof {
        assert(name@.subrange(n - 5, n as int) == ".yaml"@ <==> ".yaml"@.is_suffix_of(name@));
    }
    r
}

/// The YAML files that nothing is written to.
pub open spec fn unknown(names: Seq<Seq<char>>, expected: Seq<Seq<char>>) -> Seq<Seq<char>>
    decreases names.len(),
{
    if names.len() == 0 {
        Seq::empty()
    } else if is_yaml(names.last()) && !expected.contains(names.last()) {
        unknown(names.drop_last(), expected).push(names.last())
    } else {
        unknown(names.drop_last(), expected)
    }
}

/// Lists the YAML files of a directory that nothing is written to. Other files are
/// left alone.
pub fn stale_files(names: &Vec<String>, expected: &Vec<String>) -> (r: Vec<String>)
    ensures
        r.deep_view() == unknown(names.deep_view(), expected.deep_view()),
{
    let ghost all = names.deep_view();
    let mut out: Vec<String> = Vec::new();
    let mut i: usize = 0;
    proof {
        assert(out.deep_view() =~= Seq::<Seq<char>>::empty());
        assert(all.take(0) =~= Seq::<Seq<char>>::empty());
    }
    while i < names.len()
        invariant
            i <= names@.len(),
            all == names.deep_view(),
            out.deep_view() == unknown(all.take(i as int), expected.deep_view()),
        decreases names@.len() - i,
    {
        proof {
            assert(all.take(i + 1).drop_last() =~= all.take(i as int));
            assert(all.take(i + 1).last() == names@[i as int]@);
        }
        let name: &str = names[i].as_str();
        if has_yaml_extension(name) && !text::contains(expected, name) {
            let ghost so_far = out.deep_view();
            out.push(names[i].clone());
            proof {
                assert(out.deep_view() =~= so_far.push(name@));
            }
        }
        i += 1;
    }
    proof {
        assert(all.take(i as int) =~= all);
    }
    out
}

// Laws.

/// The files that nothing is written to are the YAML files that are not expected, in their
/// order: those of two lists are those of the one and then those of the other.
pub proof fn unexpected_yaml_files_are_found(
    first: Seq<Seq<char>>,
    second: Seq<Seq<char>>,
    expected: Seq<Seq<char>>,
)
    ensures
        unknown(first + second, expected) == unknown(first, expected) + unknown(second, expected),
        first.len() == 1 ==> unknown(first, expected) == (if (exists|stem: Seq<char>|
            stem.len() > 0 && first[0] == #[trigger] (stem + ".yaml"@)) && !expected.contains(
            first[0],
        ) {
            first
        } else {
            Seq::empty()
        }),
    decreases second.len(),
{
    if second.len() == 0 {
        assert(first + second =~= first);
        assert(unknown(first, expected) + unknown(second, expected) =~= unknown(first, expected));
    } else {
        unexpected_yaml_files_are_found(first, second.drop_last(), expected);
        assert((first + second).drop_last() =~= first + second.drop_last());
        assert((first + second).last() == second.last());
        assert(unknown(first + second, expected) =~= unknown(first, expected) + unknown(
            second,
            expected,
        ));
    }
    if first.len() == 1 {
        reveal_with_fuel(unknown, 2);
        assert(first.drop_last() =~= Seq::<Seq<char>>::empty());
        assert(Seq::<Seq<char>>::empty().push(first[0]) =~= first);
        assert(first.last() == first[0]);
        yaml_names_end_in_yaml(first[0]);
    }
}

/// A YAML file has a name that ends in `.yaml`, with something before it.
pub proof fn yaml_names_end_in_yaml(name: Seq<char>)
    ensures
        is_yaml(name) <==> exists|stem: Seq<char>|
            stem.len() > 0 && name == #[trigger] (stem + ".yaml"@),
{
    reveal_strlit(".yaml");
    if is_yaml(name) {
        let stem = name.take(name.len() - 5);
        assert(name =~= stem + ".yaml"@);
    }
    if exists|stem: Seq<char>| stem.len() > 0 && name == #[trigger] (stem + ".yaml"@) {
        let stem = choose|stem: Seq<char>| stem.len() > 0 && name == #[trigger] (stem + ".yaml"@);
        assert(name.subrange(name.len() - 5, name.len() as int) =~= ".yaml"@);
    }
}

/// Every finding says what is wrong, and what is to be done about it.
pub proof fn findings_are_told()
    ensures
        Finding::OutOfDate.words() == " is out of date — run: task generate"@,
        Finding::NotFound.words() == " not found — run: task generate"@,
        Finding::UnknownCrd.words() == " is not a known CRD — run: task generate"@,
{
}

} // verus!
