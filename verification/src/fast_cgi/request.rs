//! One logical multiplexed request, assembled from several records.

use vstd::prelude::*;
use super::records::{NameValuePair, PairView};

verus! {

/// No two pairs carry the same name.
pub open spec fn params_unique(ps: Seq<PairView>) -> bool {
    forall|i: int, j: int|
        0 <= i < j < ps.len() ==> (#[trigger] ps[i]).name != (#[trigger] ps[j]).name
}

/// The mapping a pair list denotes: defined on the names that occur, each
/// bound to the value of a pair carrying it.
pub open spec fn params_as_map(ps: Seq<PairView>) -> Map<Seq<char>, Seq<char>> {
    Map::new(
        |n: Seq<char>| exists|i: int| 0 <= i < ps.len() && (#[trigger] ps[i]).name == n,
        |n: Seq<char>|
            ps[choose|i: int| 0 <= i < ps.len() && (#[trigger] ps[i]).name == n].value,
    )
}

/// Mathematical model of a request: its parameter mapping, its body so far,
/// the body bytes still expected, and whether it is complete.
pub ghost struct RequestView {
    pub params: Map<Seq<char>, Seq<char>>,
    pub stdin: Option<Seq<u8>>,
    pub input_left: int,
    pub request_done: bool,
}

/// One in-flight request: parameters (names unique), optional body buffer,
/// body bytes still expected, and the completion flag.
#[derive(Debug)]
pub struct Request {
    pub params: Vec<NameValuePair>,
    pub stdin: Option<Vec<u8>>,
    pub input_left: usize,
    pub request_done: bool,
}

impl View for Request {
    type V = RequestView;

    open spec fn view(&self) -> RequestView {
        RequestView {
            params: params_as_map(self.params@.map_values(|p: NameValuePair| p@)),
            stdin: match self.stdin {
                Some(v) => Some(v@),
                None => None,
            },
            input_left: self.input_left as int,
            request_done: self.request_done,
        }
    }
}

impl Request {
    /// The parameter list holds no duplicate names.
    pub open spec fn wf(self) -> bool {
        params_unique(self.params@.map_values(|p: NameValuePair| p@))
    }

    /// A fresh request: no parameters, no body, not complete.
    pub fn new() -> (r: Request)
        ensures
            r.wf(),
            r@.params == Map::<Seq<char>, Seq<char>>::empty(),
            r@.stdin is None,
            r@.input_left == 0,
            !r@.request_done,
    {
        let r = Request { params: Vec::new(), stdin: None, input_left: 0, request_done: false };
        proof {
            assert(r.params@.map_values(|p: NameValuePair| p@) =~= Seq::<PairView>::empty());
            assert(params_as_map(Seq::<PairView>::empty()) =~= Map::<Seq<char>, Seq<char>>::empty());
        }
        r
    }

    /// Looks a parameter up by name.
    pub fn get_param(&self, name: &String) -> (r: Option<&String>)
        requires
            self.wf(),
        ensures
            match r {
                Some(v) => self@.params.contains_key(name@) && v@ == self@.params[name@],
                None => !self@.params.contains_key(name@),
            },
    {
        let ghost views = self.params@.map_values(|p: NameValuePair| p@);
        let n = self.params.len();
        let mut i: usize = 0;
        while i < n
            invariant
                n == self.params@.len(),
                i <= n,
                views == self.params@.map_values(|p: NameValuePair| p@),
                params_unique(views),
                forall|j: int| 0 <= j < i ==> (#[trigger] views[j]).name != name@,
            decreases n - i,
        {
            if self.params[i].name == *name {
                proof {
                    assert(views[i as int].name == name@);
                    let w = choose|k: int|
                        0 <= k < views.len() && (#[trigger] views[k]).name == name@;
                    assert(w == i as int);
                }
                return Some(&self.params[i].value);
            }
            i = i + 1;
        }
        proof {
            assert forall|k: int| 0 <= k < views.len() implies (#[trigger] views[k]).name
                != name@ by {}
        }
        None
    }

    /// Adds or replaces the parameter `name`, binding it to `value`.
    pub fn set_param(&mut self, name: String, value: String)
        requires
            old(self).wf(),
        ensures
            final(self).wf(),
            final(self)@.params == old(self)@.params.insert(name@, value@),
            final(self)@.stdin == old(self)@.stdin,
            final(self)@.input_left == old(self)@.input_left,
            final(self)@.request_done == old(self)@.request_done,
    {
        let ghost old_views = self.params@.map_values(|p: NameValuePair| p@);
        let n = self.params.len();
        let mut i: usize = 0;
        while i < n
            invariant
                n == self.params@.len(),
                i <= n,
                old_views == self.params@.map_values(|p: NameValuePair| p@),
                params_unique(old_views),
                forall|j: int| 0 <= j < i ==> (#[trigger] old_views[j]).name != name@,
                *self == *old(self),
            decreases n - i,
        {
            if self.params[i].name == *(&name) {
                let p = NameValuePair::new(name, value);
                self.params.set(i, p);
                proof {
                    let views = self.params@.map_values(|p: NameValuePair| p@);
                    assert(views =~= old_views.update(i as int, PairView { name: name@, value: value@ }));
                    lemma_params_update(old_views, i as int, name@, value@);
                }
                return ;
            }
            i = i + 1;
        }
        let p = NameValuePair::new(name, value);
        self.params.push(p);
        proof {
            let views = self.params@.map_values(|p: NameValuePair| p@);
            assert(views =~= old_views + seq![PairView { name: name@, value: value@ }]);
            lemma_params_push(old_views, name@, value@);
        }
    }
}

/// Updating the pair that carries `n` updates only that binding.
proof fn lemma_params_update(ps: Seq<PairView>, i: int, n: Seq<char>, v: Seq<char>)
    requires
        params_unique(ps),
        0 <= i < ps.len(),
        ps[i].name == n,
    ensures
        params_unique(ps.update(i, PairView { name: n, value: v })),
        params_as_map(ps.update(i, PairView { name: n, value: v })) == params_as_map(ps).insert(
            n,
            v,
        ),
{
    let ps2 = ps.update(i, PairView { name: n, value: v });
    assert forall|a: int, b: int| 0 <= a < b < ps2.len() implies (#[trigger] ps2[a]).name != (
    #[trigger] ps2[b]).name by {
        assert(ps[a].name == ps2[a].name && ps[b].name == ps2[b].name);
    }
    let m1 = params_as_map(ps2);
    let m2 = params_as_map(ps).insert(n, v);
    assert forall|k: Seq<char>| m1.contains_key(k) implies m2.contains_key(k) && m1[k]
        == m2[k] by {
        let w = choose|j: int| 0 <= j < ps2.len() && (#[trigger] ps2[j]).name == k;
        if k == n {
            assert(w == i);
        } else {
            assert(ps[w].name == k);
            let w2 = choose|j: int| 0 <= j < ps.len() && (#[trigger] ps[j]).name == k;
            assert(w2 == w);
        }
    }
    assert forall|k: Seq<char>| m2.contains_key(k) implies m1.contains_key(k) by {
        if k == n {
            assert(ps2[i].name == k);
        } else {
            let w2 = choose|j: int| 0 <= j < ps.len() && (#[trigger] ps[j]).name == k;
            assert(ps2[w2].name == k);
        }
    }
    assert(m1 =~= m2);
}

/// Appending a pair with a fresh name adds exactly that binding.
proof fn lemma_params_push(ps: Seq<PairView>, n: Seq<char>, v: Seq<char>)
    requires
        params_unique(ps),
        forall|j: int| 0 <= j < ps.len() ==> (#[trigger] ps[j]).name != n,
    ensures
        params_unique(ps + seq![PairView { name: n, value: v }]),
        params_as_map(ps + seq![PairView { name: n, value: v }]) == params_as_map(ps).insert(
            n,
            v,
        ),
{
    let ps2 = ps + seq![PairView { name: n, value: v }];
    assert forall|a: int, b: int| 0 <= a < b < ps2.len() implies (#[trigger] ps2[a]).name != (
    #[trigger] ps2[b]).name by {
        if b < ps.len() {
            assert(ps[a].name != ps[b].name);
        } else {
            assert(ps2[b].name == n && ps2[a].name == ps[a].name);
        }
    }
    let m1 = params_as_map(ps2);
    let m2 = params_as_map(ps).insert(n, v);
    assert forall|k: Seq<char>| m1.contains_key(k) implies m2.contains_key(k) && m1[k]
        == m2[k] by {
        let w = choose|j: int| 0 <= j < ps2.len() && (#[trigger] ps2[j]).name == k;
        if k == n {
            assert(w == ps.len());
        } else {
            assert(w < ps.len() && ps[w].name == k);
            let w2 = choose|j: int| 0 <= j < ps.len() && (#[trigger] ps[j]).name == k;
            assert(w2 == w);
        }
    }
    assert forall|k: Seq<char>| m2.contains_key(k) implies m1.contains_key(k) by {
        if k == n {
            assert(ps2[ps.len() as int].name == k);
        } else {
            let w2 = choose|j: int| 0 <= j < ps.len() && (#[trigger] ps[j]).name == k;
            assert(ps2[w2].name == k);
        }
    }
    assert(m1 =~= m2);
}

} // verus!
