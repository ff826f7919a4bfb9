use vstd::prelude::*;

verus! {

/// The largest diagram a PlantUML server may send, in bytes.
pub const MAX_DIAGRAM_BYTES: usize = 2097152;

/// Why a diagram could not be rendered.
#[derive(Debug)]
pub enum DiagramError {
    Contact,
    Status(String),
    InvalidDiagram,
    NotSvg,
    Oversized,
    Read,
}

/// The sentence that describes a diagram error.
pub open spec fn diagram_error_text(error: DiagramError) -> Seq<char> {
    match error {
        DiagramError::Contact => "Could not contact the PlantUML server"@,
        DiagramError::Status(status) => "The PlantUML server returned "@ + status@,
        DiagramError::InvalidDiagram => "The PlantUML server reported an invalid diagram"@,
        DiagramError::NotSvg => "The PlantUML server did not return SVG content"@,
        DiagramError::Oversized => "The PlantUML server returned an oversized diagram"@,
        DiagramError::Read => "Could not read the PlantUML response"@,
    }
}

impl DiagramError {
    /// The sentence that describes this error.
    pub fn message(&self) -> (text: String)
        ensures
            text@ == diagram_error_text(*self),
    {
        match self {
            DiagramError::Contact => "Could not contact the PlantUML server".to_owned(),
            DiagramError::Status(status) => {
                let mut text = "The PlantUML server returned ".to_owned();
                text.append(status.as_str());
                text
            },
            DiagramError::InvalidDiagram => "The PlantUML server reported an invalid diagram".to_owned(),
            DiagramError::NotSvg => "The PlantUML server did not return SVG content".to_owned(),
            DiagramError::Oversized => "The PlantUML server returned an oversized diagram".to_owned(),
            DiagramError::Read => "Could not read the PlantUML response".to_owned(),
        }
    }
}

/// Whether a content type names SVG: it starts with `image/svg+xml`.
pub open spec fn svg_content_type(content_type: Option<Seq<char>>) -> bool {
    match content_type {
        Some(t) => t.len() >= 13 && t.take(13) == "image/svg+xml"@,
        None => false,
    }
}

/// What the head of a PlantUML server's answer means, in the order it is checked: a failed
/// status, a reported diagram error, content that is not SVG, or a declared length above the
/// limit refuse it.
pub open spec fn diagram_head_verdict(
    success: bool,
    status: Seq<char>,
    error_header: bool,
    content_type: Option<Seq<char>>,
    content_length: Option<u64>,
) -> Option<DiagramError> {
    if !success {
        None
    } else if error_header {
        Some(DiagramError::InvalidDiagram)
    } else if !svg_content_type(content_type) {
        Some(DiagramError::NotSvg)
    } else if content_length matches Some(length) && length > MAX_DIAGRAM_BYTES {
        Some(DiagramError::Oversized)
    } else {
        None
    }
}

/// Checks the head of a PlantUML server's answer before its body is read.
pub fn check_diagram_head(
    success: bool,
    status: String,
    error_header: bool,
    content_type: Option<&str>,
    content_length: Option<u64>,
) -> (checked: Result<(), DiagramError>)
    ensures
        !success ==> (checked matches Err(DiagramError::Status(s)) && s@ == status@),
        success ==> match diagram_head_verdict(
            success,
            status@,
            error_header,
            match content_type {
                Some(t) => Some(t@),
                None => None,
            },
            content_length,
        ) {
            Some(e) => checked == Err::<(), DiagramError>(e),
            None => checked is Ok,
        },
{
    if !success {
        return Err(DiagramError::Status(status));
    }
    if error_header {
        return Err(DiagramError::InvalidDiagram);
    }
    let svg = match content_type {
        Some(t) => {
            let chars = crate::text::chars_of(t);
            let expected = crate::text::chars_of("image/svg+xml");
            proof {
                reveal_strlit("image/svg+xml");
            }
            let found = crate::text::matches_at(chars.as_slice(), expected.as_slice(), 0);
            proof {
                if chars@.len() >= 13 {
                    assert(chars@.subrange(0, 13) =~= chars@.take(13));
                }
            }
            found
        },
        None => false,
    };
    if !svg {
        return Err(DiagramError::NotSvg);
    }
    match content_length {
        Some(length) => {
            if length > MAX_DIAGRAM_BYTES as u64 {
                return Err(DiagramError::Oversized);
            }
        },
        None => {},
    }
    Ok(())
}

/// The bytes of a diagram as they arrive, never more than the limit.
pub struct DiagramBuffer {
    bytes: Vec<u8>,
}

impl DiagramBuffer {
    #[verifier::type_invariant]
    spec fn within_limit(&self) -> bool {
        self.bytes@.len() <= MAX_DIAGRAM_BYTES
    }

    /// The bytes so far.
    pub closed spec fn contents(&self) -> Seq<u8> {
        self.bytes@
    }

    /// An empty buffer.
    pub fn new() -> (buffer: Self)
        ensures
            buffer.contents() == Seq::<u8>::empty(),
    {
        DiagramBuffer { bytes: Vec::new() }
    }

    /// Adds a chunk; a chunk that would take the diagram above the limit is refused and the
    /// buffer is left as it was.
    pub fn append(&mut self, chunk: &[u8]) -> (added: Result<(), DiagramError>)
        ensures
            old(self).contents().len() + chunk@.len() > MAX_DIAGRAM_BYTES ==> (added matches Err(
                DiagramError::Oversized,
            ) && final(self).contents() == old(self).contents()),
            old(self).contents().len() + chunk@.len() <= MAX_DIAGRAM_BYTES ==> (added is Ok
                && final(self).contents() == old(self).contents() + chunk@),
    {
        proof {
            use_type_invariant(&*self);
        }
        if chunk.len() > MAX_DIAGRAM_BYTES - self.bytes.len() {
            return Err(DiagramError::Oversized);
        }
        let mut bytes: Vec<u8> = Vec::new();
        std::mem::swap(&mut bytes, &mut self.bytes);
        let ghost start = bytes@;
        let mut index: usize = 0;
        while index < chunk.len()
            invariant
                index <= chunk@.len(),
                start.len() + chunk@.len() <= MAX_DIAGRAM_BYTES,
                bytes@ == start + chunk@.subrange(0, index as int),
            decreases chunk@.len() - index,
        {
            bytes.push(chunk[index]);
            index = index + 1;
            assert(bytes@ =~= start + chunk@.subrange(0, index as int));
        }
        assert(chunk@.subrange(0, index as int) =~= chunk@);
        self.bytes = bytes;
        Ok(())
    }

    /// The bytes of the diagram.
    pub fn into_bytes(self) -> (bytes: Vec<u8>)
        ensures
            bytes@ == self.contents(),
    {
        self.bytes
    }
}

} // verus!
