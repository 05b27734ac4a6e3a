use vstd::prelude::*;

verus! {

/// A storage bucket; `has_event` when it notifies a function of changes.
#[derive(Debug, PartialEq, Eq)]
pub struct Bucket {
    pub name: String,
    pub has_event: bool,
}

/// A function resource, with optional memory size and timeout.
#[derive(Debug, PartialEq, Eq)]
pub struct Lambda {
    pub name: String,
    pub mem: Option<u16>,
    pub time: Option<u16>,
}

/// A small infrastructure description: at most one bucket and one function.
#[derive(Debug, PartialEq, Eq)]
pub struct IacInput {
    pub bucket: Option<Bucket>,
    pub lambda: Option<Lambda>,
}

#[derive(Debug, PartialEq, Eq)]
pub enum IacError {
    /// A bucket with an event needs a function to deliver it to.
    EventWithoutLambda,
}

impl IacInput {
    /// Assembles a description; a bucket with an event requires a function.
    pub fn new(bucket: Option<Bucket>, lambda: Option<Lambda>) -> (r: Result<IacInput, IacError>)
        ensures
            (bucket matches Some(b) && b.has_event && lambda is None) ==> r == Err::<IacInput, IacError>(
                IacError::EventWithoutLambda,
            ),
            !(bucket matches Some(b) && b.has_event && lambda is None) ==> r == Ok::<IacInput, IacError>(
                IacInput { bucket, lambda },
            ),
    {
        let event = match &bucket {
            Some(b) => b.has_event,
            None => false,
        };
        if event && lambda.is_none() {
            Err(IacError::EventWithoutLambda)
        } else {
            Ok(IacInput { bucket, lambda })
        }
    }

    /// Whether the description declares any resource at all.
    pub fn has_resources(&self) -> (r: bool)
        ensures
            r == (self.bucket is Some || self.lambda is Some),
    {
        self.bucket.is_some() || self.lambda.is_some()
    }
}

} // verus!
