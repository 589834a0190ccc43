//! OCI images: configuration, references, and the pull procedure.

use vstd::prelude::*;
use vstd::string::StringExecFns;
use crate::store::StoreError;
use crate::text::{extend_strings, opt_str, pairs, strs};

verus! {

/// The view of an optional list of strings.
pub open spec fn opt_strs(o: Option<Vec<String>>) -> Option<Seq<Seq<char>>> {
    match o {
        Some(v) => Some(strs(v@)),
        None => None,
    }
}

/// The view of an optional list of pairs of strings.
pub open spec fn opt_pairs(o: Option<Vec<(String, String)>>) -> Option<
    Seq<(Seq<char>, Seq<char>)>,
> {
    match o {
        Some(v) => Some(pairs(v@)),
        None => None,
    }
}

/// An optional list as a list: empty when absent.
pub open spec fn or_empty(o: Option<Seq<Seq<char>>>) -> Seq<Seq<char>> {
    match o {
        Some(v) => v,
        None => Seq::empty(),
    }
}

/// Subset of the OCI image configuration relevant to VM execution.
#[derive(Debug, Clone, PartialEq, Eq)]
pub struct ImageConfig {
    /// Default command (`CMD`).
    pub cmd: Option<Vec<String>>,
    /// Default entrypoint (`ENTRYPOINT`).
    pub entrypoint: Option<Vec<String>>,
    /// Default environment variables.
    pub env: Option<Vec<String>>,
    /// Default working directory.
    pub working_dir: Option<String>,
    /// Default user (from `USER` directive).
    pub user: Option<String>,
    /// Exposed ports (from `EXPOSE` directive), such as `80/tcp`.
    pub exposed_ports: Option<Vec<String>>,
    /// Image labels (from `LABEL` directive) as name and value.
    pub labels: Option<Vec<(String, String)>>,
}

/// Mathematical value of an [`ImageConfig`].
pub struct ImageConfigView {
    pub cmd: Option<Seq<Seq<char>>>,
    pub entrypoint: Option<Seq<Seq<char>>>,
    pub env: Option<Seq<Seq<char>>>,
    pub working_dir: Option<Seq<char>>,
    pub user: Option<Seq<char>>,
    pub exposed_ports: Option<Seq<Seq<char>>>,
    pub labels: Option<Seq<(Seq<char>, Seq<char>)>>,
}

impl ImageConfigView {
    /// The effective command: the entrypoint followed by the default command.
    pub open spec fn command(self) -> Seq<Seq<char>> {
        or_empty(self.entrypoint) + or_empty(self.cmd)
    }
}

impl View for ImageConfig {
    type V = ImageConfigView;

    open spec fn view(&self) -> ImageConfigView {
        ImageConfigView {
            cmd: opt_strs(self.cmd),
            entrypoint: opt_strs(self.entrypoint),
            env: opt_strs(self.env),
            working_dir: opt_str(self.working_dir),
            user: opt_str(self.user),
            exposed_ports: opt_strs(self.exposed_ports),
            labels: opt_pairs(self.labels),
        }
    }
}

impl ImageConfig {
    /// Returns the combined entrypoint + cmd as the final execution command.
    pub fn command(&self) -> (parts: Vec<String>)
        ensures
            strs(parts@) == self@.command(),
    {
        let mut parts: Vec<String> = Vec::new();
        assert(strs(parts@) =~= Seq::empty());
        if let Some(ep) = &self.entrypoint {
            extend_strings(&mut parts, ep);
        }
        assert(strs(parts@) =~= or_empty(self@.entrypoint));
        if let Some(cmd) = &self.cmd {
            extend_strings(&mut parts, cmd);
        }
        assert(strs(parts@) =~= self@.command());
        parts
    }
}

/// Errors from OCI image operations.
#[derive(Debug, Clone, PartialEq, Eq)]
pub enum Error {
    /// The image reference string could not be parsed.
    InvalidReference(String),
    /// The image was not found locally.
    NotFound(String),
    /// Local store error.
    Db(StoreError),
    /// OCI registry protocol error.
    Registry(String),
    /// Filesystem I/O error.
    Io(String),
    /// JSON parsing error.
    Json(String),
}

/// Mathematical value of an [`Error`].
pub enum ErrorView {
    InvalidReference(Seq<char>),
    NotFound(Seq<char>),
    Db(StoreError),
    Registry(Seq<char>),
    Io(Seq<char>),
    Json(Seq<char>),
}

impl View for Error {
    type V = ErrorView;

    open spec fn view(&self) -> ErrorView {
        match *self {
            Error::InvalidReference(msg) => ErrorView::InvalidReference(msg@),
            Error::NotFound(msg) => ErrorView::NotFound(msg@),
            Error::Db(e) => ErrorView::Db(e),
            Error::Registry(msg) => ErrorView::Registry(msg@),
            Error::Io(msg) => ErrorView::Io(msg@),
            Error::Json(msg) => ErrorView::Json(msg@),
        }
    }
}

/// An image reference in its parts.
#[derive(Debug, Clone, PartialEq, Eq)]
pub struct Reference {
    /// Name of the registry.
    pub registry: String,
    /// Name of the repository.
    pub repository: String,
    /// The tag, if present.
    pub tag: Option<String>,
    /// The digest, if present.
    pub digest: Option<String>,
}

/// Mathematical value of a [`Reference`].
pub struct ReferenceView {
    pub registry: Seq<char>,
    pub repository: Seq<char>,
    pub tag: Option<Seq<char>>,
    pub digest: Option<Seq<char>>,
}

impl View for Reference {
    type V = ReferenceView;

    open spec fn view(&self) -> ReferenceView {
        ReferenceView {
            registry: self.registry@,
            repository: self.repository@,
            tag: opt_str(self.tag),
            digest: opt_str(self.digest),
        }
    }
}

impl ReferenceView {
    /// The registry and the repository with `/` between them, where both are
    /// there.
    pub open spec fn name(self) -> Seq<char> {
        if self.registry.len() > 0 && self.repository.len() > 0 {
            self.registry + "/"@ + self.repository
        } else {
            self.registry + self.repository
        }
    }

    /// The name with the tag after a `:`, where there is a tag.
    pub open spec fn tagged(self) -> Seq<char> {
        match self.tag {
            Some(tag) => if self.name().len() > 0 {
                self.name() + ":"@ + tag
            } else {
                tag
            },
            None => self.name(),
        }
    }

    /// The canonical string: `registry/repository:tag@digest`, without the
    /// parts that are absent.
    pub open spec fn whole(self) -> Seq<char> {
        match self.digest {
            Some(digest) => if self.name().len() > 0 || self.tag is Some {
                self.tagged() + "@"@ + digest
            } else {
                digest
            },
            None => self.tagged(),
        }
    }
}

/// What parsing an image string gives: the registry, the repository, the tag
/// and the digest of the reference, or the text of the parse error.
pub uninterp spec fn parsed_reference(image: Seq<char>) -> Result<
    (Seq<char>, Seq<char>, Option<Seq<char>>, Option<Seq<char>>),
    Seq<char>,
>;

/// Parses an image string with `oci_client::Reference`'s `FromStr`.
///
/// Trusted: the result is the one that the parser gives for this string,
/// its four parts copied out, or its error rendered as text.
#[verifier::external_body]
fn parse(image: &str) -> (r: Result<Reference, String>)
    ensures
        parsed_reference(image@) == match r {
            Ok(reference) => Ok(
                (
                    reference@.registry,
                    reference@.repository,
                    reference@.tag,
                    reference@.digest,
                ),
            ),
            Err(msg) => Err(msg@),
        },
{
    match image.parse::<oci_client::Reference>() {
        Ok(r) => Ok(
            Reference {
                registry: r.registry().to_owned(),
                repository: r.repository().to_owned(),
                tag: r.tag().map(str::to_owned),
                digest: r.digest().map(str::to_owned),
            },
        ),
        Err(e) => Err(e.to_string()),
    }
}

/// The reference that an image string stands for, or `InvalidReference`
/// with the parser's message.
pub open spec fn reference_of(image: Seq<char>) -> Result<ReferenceView, ErrorView> {
    match parsed_reference(image) {
        Ok((registry, repository, tag, digest)) => Ok(
            ReferenceView { registry, repository, tag, digest },
        ),
        Err(msg) => Err(ErrorView::InvalidReference(msg)),
    }
}

/// Parses an image string into a [`Reference`].
pub fn parse_reference(image: &str) -> (r: Result<Reference, Error>)
    ensures
        match r {
            Ok(reference) => reference_of(image@) == Ok::<ReferenceView, ErrorView>(reference@),
            Err(e) => reference_of(image@) == Err::<ReferenceView, ErrorView>(e@),
        },
{
    match parse(image) {
        Ok(reference) => Ok(reference),
        Err(msg) => Err(Error::InvalidReference(msg)),
    }
}

impl Reference {
    /// The canonical string of the reference.
    pub fn whole(&self) -> (out: String)
        ensures
            out@ == self@.whole(),
    {
        let mut out = self.registry.clone();
        let mut not_empty = self.registry.as_str().unicode_len() > 0;
        if self.repository.as_str().unicode_len() > 0 {
            if not_empty {
                out.append("/");
            }
            out.append(self.repository.as_str());
            not_empty = true;
        }
        assert(out@ =~= self@.name());
        assert(not_empty == (self@.name().len() > 0));
        if let Some(tag) = &self.tag {
            if not_empty {
                out.append(":");
            }
            out.append(tag.as_str());
            not_empty = true;
        }
        assert(out@ =~= self@.tagged());
        if let Some(digest) = &self.digest {
            if not_empty {
                out.append("@");
            }
            out.append(digest.as_str());
        }
        assert(out@ =~= self@.whole());
        out
    }
}

} // verus!
