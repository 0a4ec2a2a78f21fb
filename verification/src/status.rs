//! The status line (model, GPU, token usage, thread id) and the GPU query
//! whose output it shows.
use vstd::prelude::*;

use crate::lines::{trim_chars, trim_ws};
use crate::models::TokenUsage;
use crate::styled::{fg_style, spans_view, span_of, Color, Line, Span, SpanView, Style};
use crate::text::{chars_to_string, lines_of, split_chars, split_on, str_to_chars, text_lines, lemma_split_on_nonempty};

verus! {

// ---------------------------------------------------------------------------
// GPU information
// ---------------------------------------------------------------------------

/// The status text for `nvidia-smi` CSV output (a header line, then a data
/// line): the data's first three fields, trimmed, as `name  │  GPU: util  │
/// Mem: mem`; otherwise (no data line, or one with fewer fields) the whole
/// output, trimmed.
pub open spec fn gpu_summary(raw: Seq<char>) -> Seq<char> {
    let ls = lines_of(raw);
    if ls.len() >= 2 {
        let parts = split_on(ls[1], ',');
        if parts.len() >= 3 {
            trim_ws(parts[0]) + "  │  GPU: "@ + trim_ws(parts[1]) + "  │  Mem: "@ + trim_ws(parts[2])
        } else {
            trim_ws(raw)
        }
    } else {
        trim_ws(raw)
    }
}

/// Summarises `nvidia-smi` output for the status line.
pub fn parse_nvidia_smi(raw: &str) -> (r: String)
    ensures
        r@ == gpu_summary(raw@),
{
    let chars = str_to_chars(raw);
    let ls = text_lines(&chars);
    if ls.len() >= 2 {
        let parts = split_chars(&ls[1], ',');
        if parts.len() >= 3 {
            let mut s = chars_to_string(&trim_chars(&parts[0]));
            s.append("  │  GPU: ");
            s.append(chars_to_string(&trim_chars(&parts[1])).as_str());
            s.append("  │  Mem: ");
            s.append(chars_to_string(&trim_chars(&parts[2])).as_str());
            s
        } else {
            chars_to_string(&trim_chars(&chars))
        }
    } else {
        chars_to_string(&trim_chars(&chars))
    }
}

/// The GPU monitor: runs `nvidia-smi` with the query below every five seconds.
pub struct NvidiaSmi;

impl NvidiaSmi {
    pub fn new() -> (r: Self) {
        NvidiaSmi
    }

    /// The arguments `nvidia-smi` is run with: name, utilisation and memory
    /// used, as CSV.
    pub fn query_args(&self) -> (r: Vec<String>)
        ensures
            r@.len() == 2,
            r@[0]@ == "--query-gpu=name,utilization.gpu,memory.used"@,
            r@[1]@ == "--format=csv"@,
    {
        let mut v: Vec<String> = Vec::new();
        v.push(String::from_str("--query-gpu=name,utilization.gpu,memory.used"));
        v.push(String::from_str("--format=csv"));
        v
    }

    /// Seconds between two queries.
    pub fn interval_secs(&self) -> (r: u64)
        ensures
            r == 5,
    {
        5
    }
}

// ---------------------------------------------------------------------------
// Status line
// ---------------------------------------------------------------------------

/// The status line's state.
pub struct StatusLineController {
    model_name: String,
    gpu_info: String,
    thread_id: String,
    usage_info: Option<TokenUsage>,
}

/// Abstract state of the status line.
pub struct StatusView {
    pub model_name: Seq<char>,
    pub gpu_info: Seq<char>,
    pub thread_id: Seq<char>,
    pub usage_info: Option<TokenUsage>,
}

impl View for StatusLineController {
    type V = StatusView;

    closed spec fn view(&self) -> StatusView {
        StatusView {
            model_name: self.model_name@,
            gpu_info: self.gpu_info@,
            thread_id: self.thread_id@,
            usage_info: self.usage_info,
        }
    }
}

/// One count of the usage part of the status line.
#[derive(Debug, Clone, Copy, PartialEq, Eq, Structural)]
pub enum UsagePart {
    /// Prompt tokens (`↑`).
    Prompt(u64),
    /// Completion tokens (`↓`).
    Completion(u64),
    /// The total (`Σ`), shown only when the prompt or completion count is missing.
    Total(u64),
}

/// The counts shown for a usage, in order.
pub open spec fn usage_parts_of(u: TokenUsage) -> Seq<UsagePart> {
    let p = match u.prompt_tokens {
        Some(n) => seq![UsagePart::Prompt(n)],
        None => Seq::empty(),
    };
    let c = match u.completion_tokens {
        Some(n) => seq![UsagePart::Completion(n)],
        None => Seq::empty(),
    };
    let t = match u.total_tokens {
        Some(n) => if u.prompt_tokens is None || u.completion_tokens is None {
            seq![UsagePart::Total(n)]
        } else {
            Seq::empty()
        },
        None => Seq::empty(),
    };
    p + c + t
}

/// The status line: help, model (when known), GPU, usage (when reported),
/// thread id.
pub open spec fn status_spans(v: StatusView, usage_text: Option<Seq<char>>) -> Seq<SpanView> {
    let dim = fg_style(Color::DarkGray);
    let head = seq![span_of(" F1 help "@, dim), span_of("│"@, dim)];
    let model = if v.model_name.len() > 0 {
        seq![span_of(" "@ + v.model_name + " "@, fg_style(Color::Cyan)), span_of("│"@, dim)]
    } else {
        Seq::empty()
    };
    let gpu = seq![span_of(" ⬡ "@, dim), span_of(v.gpu_info, dim)];
    let usage = if v.usage_info is Some {
        seq![span_of("  │"@, dim)] + match usage_text {
            Some(t) => seq![span_of(" "@ + t + " "@, fg_style(Color::Green))],
            None => Seq::empty(),
        }
    } else {
        Seq::empty()
    };
    head + model + gpu + usage + seq![span_of(" | id: "@ + v.thread_id, dim)]
}

impl StatusLineController {
    pub fn new() -> (r: Self)
        ensures
            r@.model_name.len() == 0,
            r@.thread_id.len() == 0,
            r@.gpu_info == "GPU: waiting…"@,
            r@.usage_info is None,
    {
        StatusLineController {
            model_name: String::new(),
            thread_id: String::new(),
            gpu_info: String::from_str("GPU: waiting…"),
            usage_info: None,
        }
    }

    pub fn set_thread_id(&mut self, t_id: String)
        ensures
            final(self)@ == (StatusView { thread_id: t_id@, ..old(self)@ }),
    {
        self.thread_id = t_id;
    }

    pub fn set_model_name(&mut self, name: String)
        ensures
            final(self)@ == (StatusView { model_name: name@, ..old(self)@ }),
    {
        self.model_name = name;
    }

    /// Shows the summary of raw `nvidia-smi` output.
    pub fn set_gpu_info(&mut self, raw: String)
        ensures
            final(self)@ == (StatusView { gpu_info: gpu_summary(raw@), ..old(self)@ }),
    {
        self.gpu_info = parse_nvidia_smi(raw.as_str());
    }

    pub fn set_usage_info(&mut self, usage: TokenUsage)
        ensures
            final(self)@ == (StatusView { usage_info: Some(usage), ..old(self)@ }),
    {
        self.usage_info = Some(usage);
    }

    /// The counts the usage part shows (none without a usage).
    pub fn usage_parts(&self) -> (r: Vec<UsagePart>)
        ensures
            match self@.usage_info {
                Some(u) => r@ == usage_parts_of(u),
                None => r@.len() == 0,
            },
    {
        let mut v: Vec<UsagePart> = Vec::new();
        match self.usage_info {
            Some(u) => {
                if let Some(n) = u.prompt_tokens {
                    v.push(UsagePart::Prompt(n));
                }
                if let Some(n) = u.completion_tokens {
                    v.push(UsagePart::Completion(n));
                }
                if let Some(n) = u.total_tokens {
                    if u.prompt_tokens.is_none() || u.completion_tokens.is_none() {
                        v.push(UsagePart::Total(n));
                    }
                }
                assert(v@ =~= usage_parts_of(u));
            },
            None => {},
        }
        v
    }

    /// The status line; `usage_text` is the usage written out (its counts
    /// and cost), when there is anything to write.
    pub fn status_line(&self, usage_text: Option<String>) -> (r: Line)
        ensures
            r@ == status_spans(
                self@,
                match usage_text {
                    Some(t) => Some(t@),
                    None => None,
                },
            ),
    {
        let dim = Style::plain().with_fg(Color::DarkGray);
        let mut spans: Vec<Span> = Vec::new();
        spans.push(Span::styled(String::from_str(" F1 help "), dim));
        spans.push(Span::styled(String::from_str("│"), dim));
        if !self.model_name.as_str().is_empty() {
            let mut m = String::from_str(" ");
            m.append(self.model_name.as_str());
            m.append(" ");
            spans.push(Span::styled(m, Style::plain().with_fg(Color::Cyan)));
            spans.push(Span::styled(String::from_str("│"), dim));
        }
        spans.push(Span::styled(String::from_str(" ⬡ "), dim));
        spans.push(Span::styled(self.gpu_info.clone(), dim));
        if self.usage_info.is_some() {
            spans.push(Span::styled(String::from_str("  │"), dim));
            if let Some(t) = usage_text {
                let mut m = String::from_str(" ");
                m.append(t.as_str());
                m.append(" ");
                spans.push(Span::styled(m, Style::plain().with_fg(Color::Green)));
            }
        }
        let mut id = String::from_str(" | id: ");
        id.append(self.thread_id.as_str());
        spans.push(Span::styled(id, dim));
        let r = Line { spans };
        assert(r@ =~= status_spans(
            self@,
            match usage_text {
                Some(t) => Some(t@),
                None => None,
            },
        ));
        r
    }
}

} // verus!
