//! Groups of arrays.

use crate::array::UnifiedZarrArray;
use crate::error::{ZarrError, ZarrResult};
use crate::json::JsonValue;
use crate::text::same_text;
use vstd::prelude::*;
use vstd::string::StringExecFns;

verus! {

/// What is known of a group as a whole.
#[derive(Debug, PartialEq, Eq)]
pub struct UnifiedGroupMetadata {
    pub zarr_format: u32,
    pub attributes: Option<Vec<(String, JsonValue)>>,
    pub consolidated: bool,
    pub array_names: Vec<String>,
    pub path: String,
}

impl UnifiedGroupMetadata {
    /// The metadata of a version 2 group at `path` whose arrays have the
    /// given names.
    pub fn of_arrays(path: &str, array_names: Vec<String>, consolidated: bool) -> (metadata:
        UnifiedGroupMetadata)
        ensures
            metadata.zarr_format == 2,
            metadata.attributes is None,
            metadata.consolidated == consolidated,
            metadata.array_names == array_names,
            metadata.path@ == path@,
    {
        UnifiedGroupMetadata {
            zarr_format: 2,
            attributes: None,
            consolidated,
            array_names,
            path: String::from_str(path),
        }
    }
}

/// A group: its metadata and its arrays by name.
#[derive(Debug, PartialEq, Eq)]
pub struct UnifiedZarrGroup {
    pub metadata: UnifiedGroupMetadata,
    /// The arrays by name, in the order in which they were opened.
    pub arrays: Vec<(String, UnifiedZarrArray)>,
}

/// Number of arrays in front of the first one named `name`; the number of
/// arrays where there is none of that name.
pub open spec fn array_index(arrays: Seq<(String, UnifiedZarrArray)>, name: Seq<char>) -> int
    decreases arrays.len(),
{
    if arrays.len() == 0 {
        0
    } else if arrays[0].0@ == name {
        0
    } else {
        1 + array_index(arrays.drop_first(), name)
    }
}

impl UnifiedZarrGroup {
    /// The invariant of a group: no array name occurs twice, and the names
    /// in the metadata are those of the arrays, in their order.
    pub open spec fn wf(&self) -> bool {
        &&& forall|i: int, j: int|
            0 <= i < j < self.arrays@.len() ==> (#[trigger] self.arrays@[i]).0@ != (
            #[trigger] self.arrays@[j]).0@
        &&& self.metadata.array_names@.len() == self.arrays@.len()
        &&& forall|i: int|
            0 <= i < self.arrays@.len() ==> (#[trigger] self.metadata.array_names@[i])@
                == self.arrays@[i].0@
    }

    pub fn zarr_format(&self) -> (version: u32)
        ensures
            version == self.metadata.zarr_format,
    {
        self.metadata.zarr_format
    }

    pub fn attributes(&self) -> (attributes: Option<&Vec<(String, JsonValue)>>)
        ensures
            match attributes {
                Some(found) => self.metadata.attributes == Some(*found),
                None => self.metadata.attributes is None,
            },
    {
        match &self.metadata.attributes {
            Some(found) => Some(found),
            None => None,
        }
    }

    pub fn is_consolidated(&self) -> (consolidated: bool)
        ensures
            consolidated == self.metadata.consolidated,
    {
        self.metadata.consolidated
    }

    pub fn array_names(&self) -> (names: &Vec<String>)
        ensures
            *names == self.metadata.array_names,
    {
        &self.metadata.array_names
    }

    pub fn path(&self) -> (path: &str)
        ensures
            path@ == self.metadata.path@,
    {
        self.metadata.path.as_str()
    }

    /// The array of the given name; in a group that holds a name twice,
    /// the first of them.
    pub fn get_array(&self, name: &str) -> (found: Option<&UnifiedZarrArray>)
        ensures
            match found {
                Some(array) => array_index(self.arrays@, name@) < self.arrays@.len() && *array
                    == self.arrays@[array_index(self.arrays@, name@)].1,
                None => array_index(self.arrays@, name@) == self.arrays@.len(),
            },
    {
        let mut i: usize = 0;
        proof {
            assert(self.arrays@.skip(0) =~= self.arrays@);
        }
        while i < self.arrays.len()
            invariant
                i <= self.arrays@.len(),
                array_index(self.arrays@, name@) == i + array_index(
                    self.arrays@.skip(i as int),
                    name@,
                ),
            decreases self.arrays@.len() - i,
        {
            proof {
                let rest = self.arrays@.skip(i as int);
                assert(rest[0] == self.arrays@[i as int]);
                assert(rest.drop_first() =~= self.arrays@.skip(i + 1));
            }
            if same_text(self.arrays[i].0.as_str(), name) {
                return Some(&self.arrays[i].1);
            }
            i += 1;
        }
        proof {
            assert(self.arrays@.skip(i as int).len() == 0);
        }
        None
    }
}

/// In a well-formed group an array is found under its own name, and under
/// no other.
pub proof fn lemma_array_index(group: UnifiedZarrGroup, i: int)
    requires
        group.wf(),
        0 <= i < group.arrays@.len(),
    ensures
        array_index(group.arrays@, group.arrays@[i].0@) == i,
{
    lemma_array_index_at(group.arrays@, i);
}

/// In a list without a repeated name the `i`-th array is the first of its
/// name.
proof fn lemma_array_index_at(arrays: Seq<(String, UnifiedZarrArray)>, i: int)
    requires
        0 <= i < arrays.len(),
        forall|a: int, b: int|
            0 <= a < b < arrays.len() ==> (#[trigger] arrays[a]).0@ != (#[trigger] arrays[b]).0@,
    ensures
        array_index(arrays, arrays[i].0@) == i,
    decreases i,
{
    if i > 0 {
        let rest = arrays.drop_first();
        assert forall|a: int, b: int| 0 <= a < b < rest.len() implies (#[trigger] rest[a]).0@ != (
        #[trigger] rest[b]).0@ by {
            assert(rest[a] == arrays[a + 1]);
            assert(rest[b] == arrays[b + 1]);
        }
        assert(rest[i - 1] == arrays[i]);
        lemma_array_index_at(rest, i - 1);
        assert(arrays[0].0@ != arrays[i].0@);
    }
}

/// Number of results in front of the first error; the number of results
/// where none is an error.
pub open spec fn first_failure<T>(results: Seq<ZarrResult<T>>) -> int
    decreases results.len(),
{
    if results.len() == 0 {
        0
    } else if results[0] is Err {
        0
    } else {
        1 + first_failure(results.drop_first())
    }
}

/// Gathers the results of tasks: all values in order, or the first error
/// in the order of the list, whatever came behind it.
pub fn collect_results<T>(results: Vec<ZarrResult<T>>) -> (gathered: ZarrResult<Vec<T>>)
    ensures
        match gathered {
            Ok(values) => first_failure(results@) == results@.len() && values@.len()
                == results@.len() && forall|i: int|
                0 <= i < values@.len() ==> results@[i] == Ok::<T, ZarrError>(values@[i]),
            Err(e) => first_failure(results@) < results@.len() && results@[first_failure(
                results@,
            )] == Err::<T, ZarrError>(e),
        },
{
    let mut values: Vec<T> = Vec::new();
    let ghost all = results@;
    let mut rest = results;
    let mut taken: Vec<ZarrResult<T>> = Vec::new();
    // The list is emptied from its end, so the results are reversed first.
    while rest.len() > 0
        invariant
            taken@.len() + rest@.len() == all.len(),
            forall|i: int| 0 <= i < rest@.len() ==> rest@[i] == all[i],
            forall|i: int| 0 <= i < taken@.len() ==> taken@[i] == all[all.len() - 1 - i],
        decreases rest@.len(),
    {
        let last = rest.pop();
        match last {
            Some(item) => {
                taken.push(item);
            },
            None => {},
        }
    }
    proof {
        assert(all.skip(0) =~= all);
    }
    while taken.len() > 0
        invariant
            all == results@,
            taken@.len() + values@.len() == all.len(),
            forall|i: int| 0 <= i < taken@.len() ==> taken@[i] == all[all.len() - 1 - i],
            forall|i: int| 0 <= i < values@.len() ==> all[i] == Ok::<T, ZarrError>(values@[i]),
            first_failure(all) == values@.len() + first_failure(all.skip(values@.len() as int)),
        decreases taken@.len(),
    {
        let ghost at = values@.len() as int;
        proof {
            assert(all.skip(at)[0] == all[at]);
            assert(all.skip(at).drop_first() =~= all.skip(at + 1));
            assert(taken@[taken@.len() - 1] == all[at]);
        }
        match taken.pop() {
            Some(Ok(value)) => {
                values.push(value);
            },
            Some(Err(e)) => {
                return Err(e);
            },
            None => {},
        }
    }
    proof {
        assert(all.skip(all.len() as int).len() == 0);
    }
    Ok(values)
}

} // verus!
