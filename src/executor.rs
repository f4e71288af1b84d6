use vstd::prelude::*;
use crate::compare::text_equal;
use crate::errors::ErrorKind;

verus! {

/// The one error code every failed call answers with.
pub const GENERIC_ERROR_CODE: i64 = -32069;

/// The error object sent back to an RPC client.
pub struct RpcError {
    pub code: i64,
    pub message: String,
}

/// A handler's failure: its kind, a short summary fit for clients, and the
/// full detail, which is only for the server's log.
pub struct Failure {
    pub kind: ErrorKind,
    pub summary: String,
    pub detail: String,
}

/// The response for a failure: the generic code and the summary; the detail
/// never leaves the process.
pub fn sanitize(failure: Failure) -> (r: RpcError)
    ensures
        r.code == GENERIC_ERROR_CODE,
        r.message@ == failure.summary@,
{
    RpcError { code: GENERIC_ERROR_CODE, message: failure.summary }
}

/// Turns a handler's outcome into the response: a value unchanged, a
/// failure sanitized.
pub fn respond<V>(outcome: Result<V, Failure>) -> (r: Result<V, RpcError>)
    ensures
        outcome matches Ok(v) ==> r == Ok::<V, RpcError>(v),
        outcome matches Err(f) ==> r matches Err(e) && e.code == GENERIC_ERROR_CODE
            && e.message@ == f.summary@,
{
    match outcome {
        Ok(v) => Ok(v),
        Err(f) => Err(sanitize(f)),
    }
}

/// Whether some name in `s` equals `name`.
pub open spec fn has_name(s: Seq<String>, name: Seq<char>) -> bool {
    exists|i: int| 0 <= i < s.len() && #[trigger] s[i]@ == name
}

/// The method names, registered once at startup; a handler is found by its position.
pub struct MethodRegistry {
    names: Vec<String>,
}

impl MethodRegistry {
    pub closed spec fn names(&self) -> Seq<String> {
        self.names@
    }

    /// No name is registered twice.
    pub open spec fn wf(&self) -> bool {
        forall|i: int, j: int|
            0 <= i < j < self.names().len() ==> #[trigger] self.names()[i]@ != #[trigger] self.names()[j]@
    }

    pub fn new() -> (r: Self)
        ensures
            r.wf(),
            r.names().len() == 0,
    {
        MethodRegistry { names: Vec::new() }
    }

    pub fn len(&self) -> (r: usize)
        ensures
            r == self.names().len(),
    {
        self.names.len()
    }

    /// The position of method `name`, if it is registered.
    pub fn lookup(&self, name: &str) -> (r: Option<usize>)
        ensures
            r is Some <==> has_name(self.names(), name@),
            r matches Some(i) ==> i < self.names().len() && self.names()[i as int]@ == name@,
    {
        let mut i: usize = 0;
        while i < self.names.len()
            invariant
                i <= self.names@.len(),
                forall|k: int| 0 <= k < i ==> self.names@[k]@ != name@,
            decreases self.names@.len() - i,
        {
            if text_equal(self.names[i].as_str(), name) {
                assert(self.names()[i as int]@ == name@);
                return Some(i);
            }
            i = i + 1;
        }
        None
    }

    /// Registers `name` at the next position; a name already present is a
    /// validation error and leaves the registry unchanged.
    pub fn register(&mut self, name: String) -> (r: Result<usize, ErrorKind>)
        requires
            old(self).wf(),
        ensures
            final(self).wf(),
            r is Ok <==> !has_name(old(self).names(), name@),
            r matches Ok(i) ==> i == old(self).names().len() && final(self).names() == old(
                self,
            ).names().push(name),
            r matches Err(e) ==> e == ErrorKind::ValidationError && final(self).names() == old(
                self,
            ).names(),
    {
        if self.lookup(name.as_str()).is_some() {
            return Err(ErrorKind::ValidationError);
        }
        let i = self.names.len();
        let ghost before = self.names@;
        self.names.push(name);
        assert forall|a: int, b: int| 0 <= a < b < self.names@.len() implies #[trigger] self.names@[a]@
            != #[trigger] self.names@[b]@ by {
            if b == before.len() {
                assert(before[a]@ != name@);
            }
        }
        Ok(i)
    }
}

} // verus!
