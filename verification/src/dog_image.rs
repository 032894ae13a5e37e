//! Fetching random dog pictures: what each reply of the network and of the disk
//! means, and what is done next.
use crate::text;
use vstd::prelude::*;

verus! {

/// The service's answer: the address of a picture, and a word on how it went.
#[derive(Debug)]
pub struct DogImage {
    pub message: String,
    pub status: String,
}

/// Why a picture could not be fetched.
#[derive(Debug)]
pub enum FetchError {
    Api(String),
    Network(String),
    Download(String),
    Save(String),
    Parse(String),
}

/// Joins two pieces of text.
fn join(first: &str, second: &str) -> (joined: String)
    ensures
        joined@ == first@ + second@,
{
    let mut joined = first.to_string();
    joined.append(second);
    joined
}

/// The address that names a random picture.
pub fn random_image_url() -> (url: &'static str)
    ensures
        url@ == "https://dog.ceo/api/breeds/image/random"@,
{
    "https://dog.ceo/api/breeds/image/random"
}

/// Judges the reply to the request for a picture: its status and its body, or the reason
/// why there was none. The body is worth parsing, and handed back, only if the status is
/// 200.
pub fn check_response<B>(reply: Result<(u16, B), String>) -> (verdict: Result<B, FetchError>)
    ensures
        reply matches Ok((status, body)) ==> {
            if status == 200 {
                verdict == Ok::<B, FetchError>(body)
            } else {
                verdict matches Err(FetchError::Api(text)) && text@ == "HTTP error: "@
                    + text::decimal(status as nat)
            }
        },
        reply matches Err(reason) ==> (verdict matches Err(FetchError::Network(text)) && text@
            == "Request failed: "@ + reason@),
{
    match reply {
        Ok((status, body)) => if status == 200 {
            Ok(body)
        } else {
            let number = text::decimal_string(status as u64);
            Err(FetchError::Api(join("HTTP error: ", number.as_str())))
        },
        Err(reason) => Err(FetchError::Network(join("Request failed: ", reason.as_str()))),
    }
}

/// Judges the parsed body of the reply: the answer, or the reason why it could not
/// be parsed.
pub fn check_parsed(parsed: Result<DogImage, String>) -> (verdict: Result<DogImage, FetchError>)
    ensures
        parsed matches Ok(image) ==> verdict == Ok::<DogImage, FetchError>(image),
        parsed matches Err(reason) ==> (verdict matches Err(FetchError::Parse(text)) && text@
            == "Failed to parse JSON: "@ + reason@),
{
    match parsed {
        Ok(image) => Ok(image),
        Err(reason) => Err(FetchError::Parse(join("Failed to parse JSON: ", reason.as_str()))),
    }
}

/// A step of a download.
#[derive(Debug, Clone, Copy, PartialEq, Eq, Structural)]
pub enum DownloadStep {
    /// Request the picture.
    Fetch,
    /// Read the bytes of the reply.
    Read,
    /// Create the file.
    Create,
    /// Write the bytes to the file.
    Write,
}

impl DownloadStep {
    /// The step that comes after this one, none after the last.
    pub open spec fn following(self) -> Option<DownloadStep> {
        match self {
            DownloadStep::Fetch => Some(DownloadStep::Read),
            DownloadStep::Read => Some(DownloadStep::Create),
            DownloadStep::Create => Some(DownloadStep::Write),
            DownloadStep::Write => None,
        }
    }

    /// The place of the step in a download.
    pub open spec fn place(self) -> nat {
        match self {
            DownloadStep::Fetch => 0,
            DownloadStep::Read => 1,
            DownloadStep::Create => 2,
            DownloadStep::Write => 3,
        }
    }

    /// The error is the one that ends a download at this step.
    pub open spec fn fails_with(self, error: FetchError, reason: Seq<char>) -> bool {
        match self {
            DownloadStep::Fetch => error matches FetchError::Download(text) && text@
                == "Failed to fetch image: "@ + reason,
            DownloadStep::Read => error matches FetchError::Download(text) && text@
                == "Failed to read bytes: "@ + reason,
            DownloadStep::Create => error matches FetchError::Save(text) && text@
                == "Failed to create file: "@ + reason,
            DownloadStep::Write => error matches FetchError::Save(text) && text@
                == "Failed to write file: "@ + reason,
        }
    }

    /// Judges how a step went, and says which step comes next: none once the picture
    /// is saved. A step that failed ends the download.
    pub fn advance(self, outcome: Result<(), String>) -> (next: Result<
        Option<DownloadStep>,
        FetchError,
    >)
        ensures
            outcome is Ok ==> next == Ok::<Option<DownloadStep>, FetchError>(self.following()),
            outcome matches Err(reason) ==> (next matches Err(error) && self.fails_with(
                error,
                reason@,
            )),
    {
        match outcome {
            Ok(()) => Ok(
                match self {
                    DownloadStep::Fetch => Some(DownloadStep::Read),
                    DownloadStep::Read => Some(DownloadStep::Create),
                    DownloadStep::Create => Some(DownloadStep::Write),
                    DownloadStep::Write => None,
                },
            ),
            Err(reason) => Err(
                match self {
                    DownloadStep::Fetch => FetchError::Download(
                        join("Failed to fetch image: ", reason.as_str()),
                    ),
                    DownloadStep::Read => FetchError::Download(
                        join("Failed to read bytes: ", reason.as_str()),
                    ),
                    DownloadStep::Create => FetchError::Save(
                        join("Failed to create file: ", reason.as_str()),
                    ),
                    DownloadStep::Write => FetchError::Save(
                        join("Failed to write file: ", reason.as_str()),
                    ),
                },
            ),
        }
    }
}

/// A download fetches, then reads, then creates the file, then writes it, and is then over;
/// the place of a step is the number of steps before it.
pub proof fn law_order_of_the_steps(step: DownloadStep)
    ensures
        DownloadStep::Fetch.following() == Some(DownloadStep::Read),
        DownloadStep::Read.following() == Some(DownloadStep::Create),
        DownloadStep::Create.following() == Some(DownloadStep::Write),
        step.following() is None <==> step == DownloadStep::Write,
        DownloadStep::Fetch.place() == 0,
        step.following() matches Some(next) ==> next.place() == step.place() + 1,
{
}

/// A step that fails ends the download with an error that ends in the reason: a download
/// error before the picture is there, an error of saving after that.
pub proof fn law_errors_of_the_steps(step: DownloadStep, error: FetchError, reason: Seq<char>)
    ensures
        step.fails_with(error, reason) <==> match error {
            FetchError::Download(text) => {
                ||| step == DownloadStep::Fetch && text@ == "Failed to fetch image: "@ + reason
                ||| step == DownloadStep::Read && text@ == "Failed to read bytes: "@ + reason
            },
            FetchError::Save(text) => {
                ||| step == DownloadStep::Create && text@ == "Failed to create file: "@ + reason
                ||| step == DownloadStep::Write && text@ == "Failed to write file: "@ + reason
            },
            _ => false,
        },
{
}

/// The step at which a download ends, where some steps work and others do not; none
/// if it gets through.
pub open spec fn stopped_at(step: DownloadStep, works: spec_fn(DownloadStep) -> bool) -> Option<
    DownloadStep,
>
    decreases 4 - step.place(),
{
    if !works(step) {
        Some(step)
    } else {
        match step.following() {
            Some(next) => stopped_at(next, works),
            None => None,
        }
    }
}

/// A download gets through if and only if every step works, and otherwise ends at the
/// first step that does not: nothing is saved before the whole picture is there.
pub proof fn law_download_stops_at_first_failure(works: spec_fn(DownloadStep) -> bool)
    ensures
        stopped_at(DownloadStep::Fetch, works) is None <==> forall|step: DownloadStep|
            #[trigger] works(step),
        stopped_at(DownloadStep::Fetch, works) matches Some(last) ==> {
            &&& !works(last)
            &&& forall|step: DownloadStep| step.place() < last.place() ==> #[trigger] works(step)
        },
{
    reveal_with_fuel(stopped_at, 5);
    assert forall|step: DownloadStep|
        stopped_at(DownloadStep::Fetch, works) is None implies #[trigger] works(step) by {
        match step {
            DownloadStep::Fetch => {},
            DownloadStep::Read => {},
            DownloadStep::Create => {},
            DownloadStep::Write => {},
        }
    }
}

/// The name of the file for a picture.
pub fn image_filename(number: u32) -> (name: String)
    ensures
        name@ == "dog_image_"@ + text::decimal(number as nat) + ".jpg"@,
{
    let digits = text::decimal_string(number as u64);
    let mut name = join("dog_image_", digits.as_str());
    name.append(".jpg");
    name
}

/// Pictures with different numbers go to different files.
pub proof fn law_filenames_differ(first: u32, second: u32)
    requires
        first != second,
    ensures
        "dog_image_"@ + text::decimal(first as nat) + ".jpg"@ != "dog_image_"@ + text::decimal(
            second as nat,
        ) + ".jpg"@,
{
    let (a, b) = (text::decimal(first as nat), text::decimal(second as nat));
    let (front, back) = ("dog_image_"@, ".jpg"@);
    text::law_decimal_is_injective(first as nat, second as nat);
    if front + a + back == front + b + back {
        let (left, right) = (front + a + back, front + b + back);
        assert(a =~= left.subrange(front.len() as int, left.len() - back.len()));
        assert(b =~= right.subrange(front.len() as int, right.len() - back.len()));
    }
}

} // verus!
