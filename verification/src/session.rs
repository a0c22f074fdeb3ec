//! A decoding session: the cursor as a state machine with two final states.
use vstd::prelude::*;
use crate::cursor::{
    lemma_next_field_extends,
    next_field,
    FieldView,
    PBParseNext,
    ParserPosition,
    TagValue,
};
use crate::wire::PBParseError;

verus! {

/// Where a session stands.
#[derive(Clone, Copy, Debug, PartialEq, Eq)]
pub enum SessionState {
    /// At the field header at this offset of the buffer. A session starts at
    /// offset 0.
    Positioned(usize),
    /// The whole buffer has been decoded. Final.
    Exhausted,
    /// A field could not be decoded. Final: the session does not skip the
    /// field and go on.
    Failed(PBParseError),
}

/// What a session is made of: the bytes of its buffer and its state.
pub struct SessionView {
    pub buffer: Seq<u8>,
    pub state: SessionState,
}

/// A decoding session over one buffer.
///
/// A session is a snapshot: a step gives a new session and leaves the old one
/// as it was. Sessions over the same buffer do not touch each other.
#[derive(Clone, Copy, Debug)]
pub struct Session<'a> {
    buffer: &'a [u8],
    state: SessionState,
}

impl<'a> View for Session<'a> {
    type V = SessionView;

    closed spec fn view(&self) -> SessionView {
        SessionView { buffer: self.buffer@, state: self.state }
    }
}

/// One step of a session over `buffer`: the state that follows `state`, and
/// the field that the step decodes, if it decodes one.
///
/// A positioned session decodes the field at its offset. It then stands at
/// the next field, or is exhausted where that field was the last. At the end
/// of the buffer it is exhausted without a field, and an error makes it
/// failed. A final state stays as it is.
pub open spec fn step(buffer: Seq<u8>, state: SessionState) -> (SessionState, Option<FieldView>) {
    match state {
        SessionState::Positioned(offset) => {
            if offset >= buffer.len() {
                (SessionState::Exhausted, None)
            } else {
                match next_field(buffer.skip(offset as int)) {
                    Err(e) => (SessionState::Failed(e), None),
                    Ok((field, used)) => (
                        if offset + used >= buffer.len() {
                            SessionState::Exhausted
                        } else {
                            SessionState::Positioned((offset + used) as usize)
                        },
                        Some(field),
                    ),
                }
            }
        },
        _ => (state, None),
    }
}

/// A step never goes back, and reads no byte twice.
///
/// A step from `offset`, inside the buffer, either fails without a field, or
/// decodes the field that starts at `offset` and stops at `end`: the new
/// offset, or the end of the buffer where the session is exhausted. The field
/// takes the bytes from `offset` to `end`: its header comes first and its
/// payload last. So `end` lies beyond `offset`, and the next step starts
/// where this one stopped.
pub proof fn lemma_step_advances(buffer: Seq<u8>, offset: usize)
    requires
        offset < buffer.len() <= usize::MAX,
    ensures
        ({
            let (state, decoded) = step(buffer, SessionState::Positioned(offset));
            let end = match state {
                SessionState::Positioned(next) => next as int,
                _ => buffer.len() as int,
            };
            match decoded {
                Some(field) => {
                    &&& !(state is Failed)
                    &&& state is Exhausted <==> end == buffer.len()
                    &&& offset < end - field.value.len()
                    &&& end <= buffer.len()
                    &&& field.value == buffer.subrange(end - field.value.len(), end)
                    &&& next_field(buffer.skip(offset as int)) == Ok::<(FieldView, int), PBParseError>(
                        (field, end - offset),
                    )
                },
                None => state is Failed,
            }
        }),
{
}

impl<'a> Session<'a> {
    #[verifier::type_invariant]
    spec fn within_buffer(self) -> bool {
        self.state matches SessionState::Positioned(offset) ==> offset <= self.buffer@.len()
    }

    /// A session at the start of `buffer`.
    pub fn new(buffer: &'a [u8]) -> (r: Session<'a>)
        ensures
            r@.buffer == buffer@,
            r@.state == SessionState::Positioned(0),
    {
        Session { buffer, state: SessionState::Positioned(0) }
    }

    /// The state of the session.
    pub fn state(&self) -> (r: SessionState)
        ensures
            r == self@.state,
            r matches SessionState::Positioned(offset) ==> offset <= self@.buffer.len(),
    {
        proof {
            use_type_invariant(self);
        }
        self.state
    }

    /// The cursor of a positioned session: the buffer from its offset on.
    /// A session in a final state has none.
    pub fn position(&self) -> (r: Option<ParserPosition<'a>>)
        ensures
            match self@.state {
                SessionState::Positioned(offset) => r matches Some(pos) && pos@
                    == self@.buffer.skip(offset as int),
                _ => r is None,
            },
    {
        proof {
            use_type_invariant(self);
        }
        match self.state {
            SessionState::Positioned(offset) => Some(
                ParserPosition { slice: &self.buffer[offset..self.buffer.len()] },
            ),
            _ => None,
        }
    }

    /// Decodes the next field.
    ///
    /// Returns the session after the step and the field that the step
    /// decoded. The end of the buffer and an error both give no field; the
    /// state of the new session tells them apart.
    pub fn advance(&self) -> (r: (Session<'a>, Option<TagValue<'a>>))
        ensures
            r.0@.buffer == self@.buffer,
            r.0@.state == step(self@.buffer, self@.state).0,
            match step(self@.buffer, self@.state).1 {
                Some(field) => r.1 matches Some(tag_value) && tag_value@ == field,
                None => r.1 is None,
            },
    {
        proof {
            use_type_invariant(self);
        }
        match self.state {
            SessionState::Positioned(offset) => {
                let len = self.buffer.len();
                if offset >= len {
                    return (Session { buffer: self.buffer, state: SessionState::Exhausted }, None);
                }
                let pos = ParserPosition { slice: &self.buffer[offset..len] };
                match PBParseNext(pos) {
                    Err(e) => (Session { buffer: self.buffer, state: SessionState::Failed(e) }, None),
                    Ok((field, next)) => {
                        let rest = next.slice.len();
                        let state = if rest == 0 {
                            SessionState::Exhausted
                        } else {
                            SessionState::Positioned(len - rest)
                        };
                        (Session { buffer: self.buffer, state }, Some(field))
                    },
                }
            },
            _ => (Session { buffer: self.buffer, state: self.state }, None),
        }
    }
}

/// The fields that the buffer `s` is made of, in the order in which they lie
/// in it, or the error of the first field that cannot be decoded.
pub open spec fn fields_of(s: Seq<u8>) -> Result<Seq<FieldView>, PBParseError>
    decreases s.len(),
{
    if s.len() == 0 {
        Ok(Seq::empty())
    } else {
        match next_field(s) {
            Err(e) => Err(e),
            Ok((field, used)) => then_fields(seq![field], fields_of(s.skip(used))),
        }
    }
}

/// The fields `decoded`, followed by what the rest of a buffer decodes to.
pub open spec fn then_fields(
    decoded: Seq<FieldView>,
    rest: Result<Seq<FieldView>, PBParseError>,
) -> Result<Seq<FieldView>, PBParseError> {
    match rest {
        Ok(fields) => Ok(decoded + fields),
        Err(e) => Err(e),
    }
}

/// The views of decoded fields.
pub open spec fn field_views<'a>(fields: Seq<TagValue<'a>>) -> Seq<FieldView> {
    fields.map_values(|field: TagValue<'a>| field@)
}

/// Fields come in the order of the wire: where the buffer `a` decodes, the
/// fields of `a` followed by `b` are the fields of `a`, and then what `b`
/// decodes to.
pub proof fn lemma_fields_follow_wire_order(a: Seq<u8>, b: Seq<u8>)
    requires
        fields_of(a) is Ok,
    ensures
        fields_of(a + b) == then_fields(fields_of(a)->Ok_0, fields_of(b)),
    decreases a.len(),
{
    if a.len() == 0 {
        assert(a + b == b);
    } else {
        lemma_next_field_extends(a, b);
        let (first, used) = next_field(a)->Ok_0;
        let rest = a.skip(used);
        assert((a + b).skip(used) == rest + b);
        lemma_fields_follow_wire_order(rest, b);
        if let Ok(fields) = fields_of(b) {
            assert(seq![first] + (fields_of(rest)->Ok_0 + fields) == (seq![first] + fields_of(
                rest,
            )->Ok_0) + fields);
        }
    }
}

/// Decodes a whole buffer, field by field.
///
/// Returns the fields in the order in which they lie in the buffer. Where a
/// field cannot be decoded, its error is returned and nothing after it is
/// read.
pub fn decode_all<'a>(buffer: &'a [u8]) -> (r: Result<Vec<TagValue<'a>>, PBParseError>)
    ensures
        match fields_of(buffer@) {
            Ok(fields) => r matches Ok(decoded) && field_views(decoded@) == fields,
            Err(e) => r matches Err(err) && err == e,
        },
{
    let mut decoded: Vec<TagValue<'a>> = Vec::new();
    let mut session = Session::new(buffer);
    proof {
        vstd::slice::axiom_spec_len(buffer);
        assert(buffer@.skip(0) == buffer@);
    }
    loop
        invariant
            session@.buffer == buffer@,
            buffer@.len() <= usize::MAX,
            match session@.state {
                SessionState::Positioned(offset) => offset <= buffer@.len() && fields_of(buffer@)
                    == then_fields(field_views(decoded@), fields_of(buffer@.skip(offset as int))),
                SessionState::Exhausted => fields_of(buffer@) == Ok::<
                    Seq<FieldView>,
                    PBParseError,
                >(field_views(decoded@)),
                SessionState::Failed(e) => fields_of(buffer@) == Err::<Seq<FieldView>, PBParseError>(
                    e,
                ),
            },
        decreases
                match session@.state {
                    SessionState::Positioned(offset) => buffer@.len() - offset + 1,
                    _ => 0,
                },
    {
        match session.state() {
            SessionState::Exhausted => {
                return Ok(decoded);
            },
            SessionState::Failed(e) => {
                return Err(e);
            },
            SessionState::Positioned(offset) => {
                let ghost before = field_views(decoded@);
                let ghost here = buffer@.skip(offset as int);
                let (next, field) = session.advance();
                if let Some(tag_value) = field {
                    decoded.push(tag_value);
                }
                proof {
                    if offset < buffer@.len() {
                        if let Ok((first, used)) = next_field(here) {
                            let rest = here.skip(used);
                            assert(rest == buffer@.skip(offset + used));
                            assert(field_views(decoded@) == before.push(first));
                            if let Ok(fields) = fields_of(rest) {
                                assert(before + (seq![first] + fields) == before.push(first)
                                    + fields);
                            }
                        }
                    }
                }
                session = next;
            },
        }
    }
}

} // verus!
