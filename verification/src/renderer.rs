use vstd::prelude::*;

verus! {

/// The two light-transport strategies a scene can be rendered with.
#[derive(Clone, Copy, Debug, PartialEq, Eq, Structural)]
pub enum RendererType {
    RGBBiased,
    RGBUnbiased,
}

/// The path tracer that follows each ray by sampling the material alone.
#[derive(Clone, Copy, Debug)]
pub struct BruteForce;

/// The message with which an unknown renderer name is refused.
pub open spec fn unknown_variant_message(name: Seq<char>) -> Seq<char> {
    "Unknown variant: '"@ + name + "'"@
}

/// `a` and `b` hold the same characters.
fn same_text(a: &str, b: &str) -> (r: bool)
    ensures
        r == (a@ == b@),
{
    let n = a.unicode_len();
    if n != b.unicode_len() {
        return false;
    }
    let mut i: usize = 0;
    while i < n
        invariant
            n == a@.len(),
            n == b@.len(),
            0 <= i <= n,
            forall|k: int| 0 <= k < i ==> a@[k] == b@[k],
        decreases n - i,
    {
        if a.get_char(i) != b.get_char(i) {
            return false;
        }
        i = i + 1;
    }
    assert(a@ =~= b@);
    true
}

impl RendererType {
    /// The renderer called `name` on the command line: `biased` or
    /// `unbiased`; any other name is refused with a message that quotes it.
    pub fn from_name(name: &str) -> (r: Result<RendererType, String>)
        ensures
            name@ == "biased"@ ==> r == Ok::<RendererType, String>(RendererType::RGBBiased),
            name@ == "unbiased"@ ==> r == Ok::<RendererType, String>(RendererType::RGBUnbiased),
            name@ != "biased"@ && name@ != "unbiased"@ ==> (r is Err && r->Err_0@
                == unknown_variant_message(name@)),
    {
        proof {
            reveal_strlit("biased");
            reveal_strlit("unbiased");
            assert("biased"@.len() != "unbiased"@.len());
        }
        if same_text(name, "biased") {
            Ok(RendererType::RGBBiased)
        } else if same_text(name, "unbiased") {
            Ok(RendererType::RGBUnbiased)
        } else {
            let mut message = String::from_str("Unknown variant: '");
            message.append(name);
            message.append("'");
            Err(message)
        }
    }
}

/// The bounce budget of one light path: how many times the path has been
/// scattered, and how many scatterings (beyond the first) it may take.
pub struct BounceBudget {
    taken: i32,
    limit: i32,
}

impl BounceBudget {
    /// How many times the path has been scattered.
    pub closed spec fn taken_spec(&self) -> int {
        self.taken as int
    }

    /// The greatest number of scatterings after which the path goes on.
    pub closed spec fn limit_spec(&self) -> int {
        self.limit as int
    }

    /// The budget of a fresh path whose view allows `limit` bounces.
    pub fn new(limit: i32) -> (r: BounceBudget)
        ensures
            r.taken_spec() == 0,
            r.limit_spec() == limit,
    {
        BounceBudget { taken: 0, limit }
    }

    /// How many times the path has been scattered.
    pub fn taken(&self) -> (r: i32)
        ensures
            r == self.taken_spec(),
    {
        self.taken
    }

    /// Records one scattering; the path goes on as long as it has been
    /// scattered no more than `limit` times.
    pub fn record_scatter(&mut self) -> (go_on: bool)
        requires
            old(self).taken_spec() < i32::MAX,
        ensures
            final(self).taken_spec() == old(self).taken_spec() + 1,
            final(self).limit_spec() == old(self).limit_spec(),
            go_on == (final(self).taken_spec() <= final(self).limit_spec()),
    {
        self.taken = self.taken + 1;
        self.taken <= self.limit
    }
}

/// The most scatterings a path whose view allows `limit` bounces can go
/// through: at least one, and never more than `limit + 1`.
pub open spec fn max_scatterings(limit: int) -> int {
    if limit < 0 {
        1
    } else {
        limit + 1
    }
}

/// Every path stops within its budget: a fresh budget has room for a
/// scattering, and a scattering recorded on a budget with room leaves the
/// count within `max_scatterings`, with room left exactly when the path
/// goes on. So a path is scattered at most `max_scatterings(limit)` times.
pub proof fn lemma_bounces_bounded(before: BounceBudget, after: BounceBudget, go_on: bool)
    requires
        0 <= before.taken_spec() < max_scatterings(before.limit_spec()),
        after.taken_spec() == before.taken_spec() + 1,
        after.limit_spec() == before.limit_spec(),
        go_on == (after.taken_spec() <= after.limit_spec()),
    ensures
        0 < max_scatterings(before.limit_spec()),
        after.taken_spec() <= max_scatterings(after.limit_spec()),
        go_on <==> after.taken_spec() < max_scatterings(after.limit_spec()),
{
}

impl std::str::FromStr for RendererType {
    type Err = String;

    fn from_str(s: &str) -> (r: Result<Self, Self::Err>)
        ensures
            s@ == "biased"@ ==> r == Ok::<RendererType, String>(RendererType::RGBBiased),
            s@ == "unbiased"@ ==> r == Ok::<RendererType, String>(RendererType::RGBUnbiased),
            s@ != "biased"@ && s@ != "unbiased"@ ==> (r is Err && r->Err_0@
                == unknown_variant_message(s@)),
    {
        RendererType::from_name(s)
    }
}

} // verus!
