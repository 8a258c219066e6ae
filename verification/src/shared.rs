//! Positions and errors shared by the spatial format readers.

use vstd::prelude::*;

verus! {

use crate::textfmt::{dec_str, u64_to_string};
use vstd::string::StringExecFns;

/// A position within a source file, such as a CSV record.
///
/// All indices are 1-based where possible to align with human expectations.
#[derive(Debug, Clone, PartialEq, Eq, Structural)]
pub struct SourcePosition {
    /// Line number in the source (1-based)
    pub line: Option<u64>,
    /// Column (field) number in the source (1-based)
    pub column: Option<u64>,
    /// Byte offset from the start of the source
    pub byte_offset: Option<u64>,
    /// Logical record number reported by the parser
    pub record: Option<u64>,
    /// Field index reported by the parser (1-based)
    pub field: Option<u64>,
}

impl Default for SourcePosition {
    /// A position with no location metadata at all.
    fn default() -> (r: Self)
        ensures
            r == (SourcePosition {
                line: None::<u64>,
                column: None::<u64>,
                byte_offset: None::<u64>,
                record: None::<u64>,
                field: None::<u64>,
            }),
    {
        SourcePosition { line: None, column: None, byte_offset: None, record: None, field: None }
    }
}

/// One optional `"<label> <n>"` part of a rendered position.
pub open spec fn position_part(label: Seq<char>, v: Option<u64>) -> Seq<Seq<char>> {
    match v {
        Some(n) => seq![label + dec_str(n as nat)],
        None => Seq::empty(),
    }
}

/// The parts of a rendered position, in their fixed order.
pub open spec fn position_parts(p: SourcePosition) -> Seq<Seq<char>> {
    position_part("line "@, p.line) + position_part("column "@, p.column) + position_part(
        "record "@,
        p.record,
    ) + position_part("byte "@, p.byte_offset) + position_part("field "@, p.field)
}

/// Parts joined with `", "`.
pub open spec fn join_comma(parts: Seq<Seq<char>>) -> Seq<char>
    decreases parts.len(),
{
    if parts.len() == 0 {
        Seq::empty()
    } else if parts.len() == 1 {
        parts[0]
    } else {
        parts[0] + ", "@ + join_comma(parts.skip(1))
    }
}

/// The rendered form of a position: its parts joined with `", "`, or
/// `"unknown position"` when it holds no metadata.
pub open spec fn position_text(p: SourcePosition) -> Seq<char> {
    if position_parts(p).len() == 0 {
        "unknown position"@
    } else {
        join_comma(position_parts(p))
    }
}

impl SourcePosition {
    /// Returns true when the position does not contain any location metadata.
    pub fn is_empty(&self) -> (r: bool)
        ensures
            r == (self.line is None && self.column is None && self.byte_offset is None
                && self.record is None && self.field is None),
    {
        self.line.is_none() && self.column.is_none() && self.byte_offset.is_none()
            && self.record.is_none() && self.field.is_none()
    }

    /// Render the position for error messages, e.g. `"line 10, column 3"`,
    /// or `"unknown position"` when empty.
    pub fn display_string(&self) -> (r: String)
        ensures
            r@ == position_text(*self),
    {
        let mut out = String::new();
        let mut first: bool = true;
        let ghost mut parts_done: Seq<Seq<char>> = Seq::empty();
        if let Some(n) = self.line {
            if !first {
                out.append(", ");
            }
            out.append("line ");
            out.append(u64_to_string(n).as_str());
            proof {
                parts_done = Self::joined_one(parts_done, "line "@, dec_str(n as nat), out@);
            }
            first = false;
        }
        if let Some(n) = self.column {
            if !first {
                out.append(", ");
            }
            out.append("column ");
            out.append(u64_to_string(n).as_str());
            proof {
                parts_done = Self::joined_one(parts_done, "column "@, dec_str(n as nat), out@);
            }
            first = false;
        }
        if let Some(n) = self.record {
            if !first {
                out.append(", ");
            }
            out.append("record ");
            out.append(u64_to_string(n).as_str());
            proof {
                parts_done = Self::joined_one(parts_done, "record "@, dec_str(n as nat), out@);
            }
            first = false;
        }
        if let Some(n) = self.byte_offset {
            if !first {
                out.append(", ");
            }
            out.append("byte ");
            out.append(u64_to_string(n).as_str());
            proof {
                parts_done = Self::joined_one(parts_done, "byte "@, dec_str(n as nat), out@);
            }
            first = false;
        }
        if let Some(n) = self.field {
            if !first {
                out.append(", ");
            }
            out.append("field ");
            out.append(u64_to_string(n).as_str());
            proof {
                parts_done = Self::joined_one(parts_done, "field "@, dec_str(n as nat), out@);
            }
            first = false;
        }
        proof {
            assert(parts_done =~= position_parts(*self));
        }
        if first {
            String::from_str("unknown position")
        } else {
            out
        }
    }

    /// Book-keeping for `display_string`: extending a comma-joined rendering
    /// by one `label`-and-number part keeps it a comma-joined rendering.
    proof fn joined_one(parts: Seq<Seq<char>>, label: Seq<char>, num: Seq<char>, now: Seq<
        char,
    >) -> (r: Seq<Seq<char>>)
        requires
            parts.len() == 0 ==> now == (join_comma(parts) + label) + num,
            parts.len() >= 1 ==> now == ((join_comma(parts) + ", "@) + label) + num,
        ensures
            r == parts + seq![label + num],
            now == join_comma(r),
            r.len() >= 1,
    {
        let part = label + num;
        let r = parts + seq![part];
        if parts.len() == 0 {
            assert(r =~= seq![part]);
            assert(join_comma(r) == part);
            assert((join_comma(parts) + label) + num =~= label + num);
        } else {
            lemma_join_comma_snoc(parts, part);
            assert(((join_comma(parts) + ", "@) + label) + num =~= (join_comma(parts) + ", "@)
                + part);
        }
        r
    }
}

/// Joining one more part appends `", "` and the part, once at least one part
/// is present.
pub(crate) proof fn lemma_join_comma_snoc(parts: Seq<Seq<char>>, part: Seq<char>)
    requires
        parts.len() >= 1,
    ensures
        join_comma(parts + seq![part]) == join_comma(parts) + ", "@ + part,
    decreases parts.len(),
{
    let whole = parts + seq![part];
    assert(whole[0] == parts[0]);
    if parts.len() == 1 {
        assert(whole.skip(1) =~= seq![part]);
        assert(join_comma(whole.skip(1)) == part);
        assert(join_comma(whole) == whole[0] + ", "@ + join_comma(whole.skip(1)));
    } else {
        assert(whole.skip(1) =~= parts.skip(1) + seq![part]);
        lemma_join_comma_snoc(parts.skip(1), part);
        assert(join_comma(whole) == whole[0] + ", "@ + join_comma(whole.skip(1)));
        assert(join_comma(parts) == parts[0] + ", "@ + join_comma(parts.skip(1)));
        assert(parts[0] + ", "@ + (join_comma(parts.skip(1)) + ", "@ + part) =~= (parts[0] + ", "@
            + join_comma(parts.skip(1))) + ", "@ + part);
    }
}

/// Errors that can occur when reading spatial data formats from tabular
/// sources.  The underlying causes (an I/O failure, a parser's own report)
/// are carried as their rendered text.
#[derive(Debug, Clone)]
pub enum SpatialFormatReadError {
    /// An underlying I/O failure occurred.
    Io {
        /// The originating error, rendered.
        source: String,
        /// Optional context describing what was being read.
        context: Option<String>,
    },
    /// Parsing failed for the input source.
    Parse {
        /// Human readable description of the failure.
        message: String,
        /// Optional position describing where the failure occurred.
        position: Option<SourcePosition>,
        /// Optional context describing what was being read.
        context: Option<String>,
    },
    /// Schema inference failed for the source.
    SchemaInference {
        /// Human readable description of the failure.
        message: String,
        /// Optional context describing what was being read.
        context: Option<String>,
    },
    /// Other error type not classified above.
    Other {
        /// Human readable description of the failure.
        message: String,
    },
}

/// The rendered form of an optional reading context.
pub open spec fn context_text(context: Option<Seq<char>>) -> Seq<char> {
    match context {
        Some(c) => " while reading "@ + c,
        None => Seq::empty(),
    }
}

/// The rendered form of an optional position.
pub open spec fn position_suffix(position: Option<SourcePosition>) -> Seq<char> {
    match position {
        Some(p) => " at "@ + position_text(p),
        None => Seq::empty(),
    }
}

/// The rendered form of a whole read error.
pub open spec fn error_text(e: SpatialFormatReadError) -> Seq<char> {
    match e {
        SpatialFormatReadError::Io { source, context } => "I/O error"@ + context_text(
            match context {
                Some(c) => Some(c@),
                None => None,
            },
        ) + ": "@ + source@,
        SpatialFormatReadError::Parse { message, position, context } => "Parse error"@
            + context_text(
            match context {
                Some(c) => Some(c@),
                None => None,
            },
        ) + position_suffix(position) + ": "@ + message@,
        SpatialFormatReadError::SchemaInference { message, context } => "Schema inference error"@
            + context_text(
            match context {
                Some(c) => Some(c@),
                None => None,
            },
        ) + ": "@ + message@,
        SpatialFormatReadError::Other { message } => message@,
    }
}

impl SpatialFormatReadError {
    /// Render an optional reading context as `" while reading <c>"`.
    pub fn fmt_context(context: Option<&String>) -> (r: String)
        ensures
            r@ == context_text(
                match context {
                    Some(c) => Some(c@),
                    None => None,
                },
            ),
    {
        match context {
            Some(c) => {
                let mut s = String::from_str(" while reading ");
                s.append(c.as_str());
                s
            },
            None => String::new(),
        }
    }

    /// Render an optional position as `" at <position>"`.
    pub fn fmt_position(position: Option<&SourcePosition>) -> (r: String)
        ensures
            r@ == position_suffix(
                match position {
                    Some(p) => Some(*p),
                    None => None,
                },
            ),
    {
        match position {
            Some(p) => {
                let mut s = String::from_str(" at ");
                s.append(p.display_string().as_str());
                s
            },
            None => String::new(),
        }
    }

    /// Render the error, exactly as [`error_text`] states.
    pub fn display_string(&self) -> (r: String)
        ensures
            r@ == error_text(*self),
    {
        match self {
            SpatialFormatReadError::Io { source, context } => {
                let mut s = String::from_str("I/O error");
                s.append(Self::fmt_context(context.as_ref()).as_str());
                s.append(": ");
                s.append(source.as_str());
                s
            },
            SpatialFormatReadError::Parse { message, position, context } => {
                let mut s = String::from_str("Parse error");
                s.append(Self::fmt_context(context.as_ref()).as_str());
                s.append(Self::fmt_position(position.as_ref()).as_str());
                s.append(": ");
                s.append(message.as_str());
                s
            },
            SpatialFormatReadError::SchemaInference { message, context } => {
                let mut s = String::from_str("Schema inference error");
                s.append(Self::fmt_context(context.as_ref()).as_str());
                s.append(": ");
                s.append(message.as_str());
                s
            },
            SpatialFormatReadError::Other { message } => message.clone(),
        }
    }

    /// The underlying cause's rendered text: present for I/O failures,
    /// absent for the other variants, which have no underlying error.
    pub fn source_text(&self) -> (r: Option<&String>)
        ensures
            match *self {
                SpatialFormatReadError::Io { source, .. } => r matches Some(s) && s@ == source@,
                _ => r is None,
            },
    {
        match self {
            SpatialFormatReadError::Io { source, .. } => Some(source),
            _ => None,
        }
    }

    /// Attach additional context to the error, returning the updated error.
    /// A context already present is kept and the new one appended after
    /// `"; "`; the `Other` variant has the context appended to its message in
    /// parentheses.
    pub fn with_additional_context(self, context: &str) -> (r: Self)
        ensures
            match self {
                SpatialFormatReadError::Io { source, context: existing } => r matches
                    SpatialFormatReadError::Io { source: s2, context: c2 } && s2@ == source@ && (
                c2 matches Some(c) && c@ == spec_merged_context(opt_view(existing), context@)),
                SpatialFormatReadError::Parse { message, position, context: existing } => r matches
                    SpatialFormatReadError::Parse { message: m2, position: p2, context: c2 } && m2@
                    == message@ && p2 == position && (c2 matches Some(c) && c@
                    == spec_merged_context(opt_view(existing), context@)),
                SpatialFormatReadError::SchemaInference { message, context: existing } => r matches
                    SpatialFormatReadError::SchemaInference { message: m2, context: c2 } && m2@
                    == message@ && (c2 matches Some(c) && c@ == spec_merged_context(
                    opt_view(existing),
                    context@,
                )),
                SpatialFormatReadError::Other { message } => r matches
                    SpatialFormatReadError::Other { message: m2 } && m2@ == message@ + " ("@
                    + context@ + ")"@,
            },
    {
        match self {
            SpatialFormatReadError::Io { source, context: existing } => {
                SpatialFormatReadError::Io {
                    source,
                    context: Self::merge_context(existing, context),
                }
            },
            SpatialFormatReadError::Parse { message, position, context: existing } => {
                SpatialFormatReadError::Parse {
                    message,
                    position,
                    context: Self::merge_context(existing, context),
                }
            },
            SpatialFormatReadError::SchemaInference { message, context: existing } => {
                SpatialFormatReadError::SchemaInference {
                    message,
                    context: Self::merge_context(existing, context),
                }
            },
            SpatialFormatReadError::Other { message } => {
                let mut m = message;
                m.append(" (");
                m.append(context);
                m.append(")");
                SpatialFormatReadError::Other { message: m }
            },
        }
    }

    /// Merge a new context into an existing optional one.
    fn merge_context(existing: Option<String>, context: &str) -> (r: Option<String>)
        ensures
            match r {
                Some(s) => s@ == spec_merged_context(
                    match existing {
                        Some(e) => Some(e@),
                        None => None,
                    },
                    context@,
                ),
                None => false,
            },
    {
        match existing {
            Some(e) => {
                if e.as_str().is_empty() {
                    Some(String::from_str(context))
                } else {
                    let mut s = e;
                    s.append("; ");
                    s.append(context);
                    Some(s)
                }
            },
            None => Some(String::from_str(context)),
        }
    }
}

/// The view of an optional `String`.
pub open spec fn opt_view(s: Option<String>) -> Option<Seq<char>> {
    match s {
        Some(c) => Some(c@),
        None => None,
    }
}

/// What merging a context yields: the old context, `"; "`, and the new one,
/// or just the new one when none (or an empty one) was present.
pub open spec fn spec_merged_context(existing: Option<Seq<char>>, context: Seq<char>) -> Seq<
    char,
> {
    match existing {
        Some(e) => if e.len() == 0 {
            context
        } else {
            e + "; "@ + context
        },
        None => context,
    }
}

} // verus!
