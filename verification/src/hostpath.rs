//! Absolute host paths, modelled as their components from the filesystem
//! root, with their display form.

use vstd::prelude::*;
use vstd::string::StringExecFns;

use crate::strutil::clone_strings_into;

verus! {

/// The display characters of the components: each one preceded by the
/// separator.
pub open spec fn spec_path_chars(p: Seq<Seq<char>>) -> Seq<char>
    decreases p.len(),
{
    if p.len() == 0 {
        Seq::empty()
    } else {
        spec_path_chars(p.drop_last()) + seq!['/'] + p.last()
    }
}

/// The display form of an absolute path: the separator alone for the
/// filesystem root.
pub open spec fn spec_path_string(p: Seq<Seq<char>>) -> Seq<char> {
    if p.len() == 0 {
        seq!['/']
    } else {
        spec_path_chars(p)
    }
}

/// An absolute host path: its components, root first.
#[derive(Debug, PartialEq, Eq)]
pub struct HostPath {
    /// The components, root first.
    pub segments: Vec<String>,
}

impl View for HostPath {
    type V = Seq<Seq<char>>;

    open spec fn view(&self) -> Seq<Seq<char>> {
        self.segments@.map_values(|s: String| s@)
    }
}

impl Clone for HostPath {
    fn clone(&self) -> (r: Self)
        ensures
            r@ == self@,
    {
        let mut segments: Vec<String> = Vec::new();
        clone_strings_into(&self.segments, &mut segments);
        let r = HostPath { segments };
        proof {
            assert(r@ =~= self@);
        }
        r
    }
}

impl HostPath {
    /// The filesystem root.
    pub fn root() -> (r: HostPath)
        ensures
            r@ == Seq::<Seq<char>>::empty(),
    {
        let r = HostPath { segments: Vec::new() };
        proof {
            assert(r@ =~= Seq::<Seq<char>>::empty());
        }
        r
    }

    /// A path from its components.
    pub fn from_segments(segments: Vec<String>) -> (r: HostPath)
        ensures
            r@ == segments@.map_values(|s: String| s@),
    {
        HostPath { segments }
    }

    /// Whether this is the filesystem root.
    pub fn is_root(&self) -> (b: bool)
        ensures
            b == (self@.len() == 0),
    {
        self.segments.len() == 0
    }

    /// How many components the path holds.
    pub fn depth(&self) -> (n: usize)
        ensures
            n == self@.len(),
    {
        self.segments.len()
    }

    /// The final component.
    pub fn last_segment(&self) -> (s: &String)
        requires
            self@.len() > 0,
        ensures
            s@ == self@.last(),
    {
        &self.segments[self.segments.len() - 1]
    }

    /// The containing directory.
    pub fn parent(&self) -> (p: HostPath)
        requires
            self@.len() > 0,
        ensures
            p@ == self@.drop_last(),
    {
        let n = self.segments.len();
        let mut segments: Vec<String> = Vec::new();
        let mut i: usize = 0;
        while i < n - 1
            invariant
                n == self.segments@.len(),
                n > 0,
                i <= n - 1,
                segments@.map_values(|s: String| s@) == self@.take(i as int),
            decreases n - i,
        {
            let ghost pre = segments@;
            segments.push(self.segments[i].clone());
            i += 1;
            proof {
                assert(segments@.map_values(|s: String| s@) =~= pre.map_values(|s: String| s@)
                    + seq![self.segments@[i - 1]@]);
                assert(segments@.map_values(|s: String| s@) =~= self@.take(i as int));
            }
        }
        let p = HostPath { segments };
        proof {
            assert(self@.take(n - 1) =~= self@.drop_last());
        }
        p
    }

    /// The path one component below this one.
    pub fn child(&self, name: &str) -> (p: HostPath)
        ensures
            p@ == self@.push(name@),
    {
        let mut segments: Vec<String> = Vec::new();
        clone_strings_into(&self.segments, &mut segments);
        segments.push(name.to_owned());
        let p = HostPath { segments };
        proof {
            assert(p@ =~= self@.push(name@));
        }
        p
    }

    /// The display form of the path.
    pub fn display(&self) -> (s: String)
        ensures
            s@ == spec_path_string(self@),
    {
        let n = self.segments.len();
        if n == 0 {
            let s = String::from_str("/");
            proof {
                reveal_strlit("/");
                assert(s@ =~= seq!['/']);
            }
            return s;
        }
        let mut s = String::new();
        let mut i: usize = 0;
        proof {
            assert(s@ =~= spec_path_chars(self@.take(0)));
        }
        while i < n
            invariant
                n == self.segments@.len(),
                i <= n,
                s@ == spec_path_chars(self@.take(i as int)),
            decreases n - i,
        {
            s.append("/");
            s.append(self.segments[i].as_str());
            i += 1;
            proof {
                reveal_strlit("/");
                assert(("/")@ =~= seq!['/']);
                assert(self@.take(i as int).drop_last() =~= self@.take(i as int - 1));
                assert(self@.take(i as int).last() == self@[i - 1]);
                assert(s@ =~= spec_path_chars(self@.take(i as int)));
            }
        }
        proof {
            assert(self@.take(n as int) =~= self@);
        }
        s
    }
}

} // verus!
