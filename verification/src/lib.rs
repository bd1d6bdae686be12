use vstd::prelude::*;

pub mod amount;
pub mod batch;
pub mod display;
pub mod pipeline;
pub mod revenue;
pub mod scanner;

verus! {

/// Errors raised by configuration loading and by remote calls against a
/// chain endpoint.  Absence of data (a missing block, a missing receipt) is
/// never an error; it is represented as an empty list or `None` by the
/// functions that fetch.
#[derive(Debug)]
pub enum ComputeError {
    /// A required environment setting is missing; carries the setting's name.
    MissingEnv(&'static str),
    /// A transport-level failure talking to an endpoint; carries the
    /// underlying message for diagnostics.
    Rpc(String),
}

impl ComputeError {
    /// The diagnostic line for this error, as the console reports it.
    pub fn describe(&self) -> (r: String)
        ensures
            self is MissingEnv ==> r@ == "missing env var "@ + self->MissingEnv_0@,
            self is Rpc ==> r@ == "rpc error: "@ + self->Rpc_0@,
    {
        match self {
            ComputeError::MissingEnv(name) => {
                let mut s = "missing env var ".to_owned();
                let n: &str = name;
                s.append(n);
                s
            },
            ComputeError::Rpc(msg) => {
                let mut s = "rpc error: ".to_owned();
                s.append(msg.as_str());
                s
            },
        }
    }
}

} // verus!
