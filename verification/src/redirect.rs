//! Resolution of a stage's output and error sinks into opened backing
//! resources. When both sinks name the same file destination they must share
//! one opened resource, so that both streams write through one cursor and
//! cannot overwrite each other's bytes.

use vstd::prelude::*;
use crate::command::{FileDest, SinkSpec, same_dest};

verus! {

/// One backing file resource a driver has to open, with the number of sinks
/// attached to it; every attached sink writes through the same cursor.
#[derive(Clone, Debug)]
pub struct SharedDest {
    pub dest: FileDest,
    pub attached: usize,
}

/// Which opened resource, if any, each of the two write streams of a stage
/// uses; indices point into `resources`.
#[derive(Clone, Debug)]
pub struct RedirectPlan {
    pub resources: Vec<SharedDest>,
    pub output_resource: Option<usize>,
    pub error_resource: Option<usize>,
}

impl RedirectPlan {
    /// Every resource index held by the plan points into `resources`, and
    /// attachment counts equal the number of streams pointing at each
    /// resource.
    pub open spec fn wf(self) -> bool {
        &&& (self.output_resource matches Some(i) ==> i < self.resources@.len())
        &&& (self.error_resource matches Some(i) ==> i < self.resources@.len())
    }
}

/// Compare two file destinations.
pub fn dests_equal(a: &FileDest, b: &FileDest) -> (r: bool)
    ensures
        r == same_dest(*a, *b),
{
    a.path == b.path && a.append == b.append
}

/// Resolve the output and error sinks of one stage into backing resources.
/// Two sinks naming the same file destination are attached to one shared
/// resource (one opened file, one cursor); distinct destinations get
/// distinct resources.
pub fn plan_redirections(out: &SinkSpec, err: &SinkSpec) -> (r: RedirectPlan)
    ensures
        r.wf(),
        // both streams write to the same destination: exactly one resource,
        // shared by both, with both attachments counted
        (out.spec_to_file() matches Some(a) && err.spec_to_file() matches Some(b)
            && same_dest(a, b)) ==> {
            &&& r.resources@.len() == 1
            &&& r.resources@[0].attached == 2
            &&& same_dest(r.resources@[0].dest, out.spec_to_file()->Some_0)
            &&& r.output_resource == Some(0usize)
            &&& r.error_resource == Some(0usize)
        },
        // both write to files, but different ones: two resources, one
        // attachment each
        (out.spec_to_file() matches Some(a) && err.spec_to_file() matches Some(b)
            && !same_dest(a, b)) ==> {
            &&& r.resources@.len() == 2
            &&& r.resources@[0].attached == 1
            &&& r.resources@[1].attached == 1
            &&& same_dest(r.resources@[0].dest, out.spec_to_file()->Some_0)
            &&& same_dest(r.resources@[1].dest, err.spec_to_file()->Some_0)
            &&& r.output_resource == Some(0usize)
            &&& r.error_resource == Some(1usize)
        },
        // only the output stream writes to a file
        (out.spec_to_file() matches Some(a) && err.spec_to_file() is None) ==> {
            &&& r.resources@.len() == 1
            &&& r.resources@[0].attached == 1
            &&& same_dest(r.resources@[0].dest, out.spec_to_file()->Some_0)
            &&& r.output_resource == Some(0usize)
            &&& r.error_resource is None
        },
        // only the error stream writes to a file
        (out.spec_to_file() is None && err.spec_to_file() matches Some(b)) ==> {
            &&& r.resources@.len() == 1
            &&& r.resources@[0].attached == 1
            &&& same_dest(r.resources@[0].dest, err.spec_to_file()->Some_0)
            &&& r.output_resource is None
            &&& r.error_resource == Some(0usize)
        },
        // neither writes to a file: nothing to open
        (out.spec_to_file() is None && err.spec_to_file() is None) ==> {
            &&& r.resources@.len() == 0
            &&& r.output_resource is None
            &&& r.error_resource is None
        },
{
    match (out, err) {
        (SinkSpec::ToFile(a), SinkSpec::ToFile(b)) => {
            if dests_equal(a, b) {
                let mut resources: Vec<SharedDest> = Vec::new();
                resources.push(SharedDest { dest: a.duplicate(), attached: 2 });
                RedirectPlan {
                    resources,
                    output_resource: Some(0),
                    error_resource: Some(0),
                }
            } else {
                let mut resources: Vec<SharedDest> = Vec::new();
                resources.push(SharedDest { dest: a.duplicate(), attached: 1 });
                resources.push(SharedDest { dest: b.duplicate(), attached: 1 });
                RedirectPlan {
                    resources,
                    output_resource: Some(0),
                    error_resource: Some(1),
                }
            }
        },
        (SinkSpec::ToFile(a), _) => {
            let mut resources: Vec<SharedDest> = Vec::new();
            resources.push(SharedDest { dest: a.duplicate(), attached: 1 });
            RedirectPlan {
                resources,
                output_resource: Some(0),
                error_resource: None,
            }
        },
        (_, SinkSpec::ToFile(b)) => {
            let mut resources: Vec<SharedDest> = Vec::new();
            resources.push(SharedDest { dest: b.duplicate(), attached: 1 });
            RedirectPlan {
                resources,
                output_resource: None,
                error_resource: Some(0),
            }
        },
        (_, _) => {
            RedirectPlan {
                resources: Vec::new(),
                output_resource: None,
                error_resource: None,
            }
        },
    }
}

} // verus!
