//! Rendering help lines for declared arguments: measuring column widths
//! over a registry, then laying each argument's tags and documentation out
//! in aligned columns. Presentation only — none of this takes part in
//! resolution.

use vstd::prelude::*;
use vstd::string::StrSliceExecFns;
use vstd::string::StringExecFns;

use crate::strutil::char_to_string;
use crate::tag::{Cli, Full, FullView};

verus! {

/// The column widths measured over a registry, driving the layout of every
/// rendered line.
#[derive(Debug, Clone, Copy, PartialEq, Eq)]
pub struct DocParams {
    /// How many columns remain for documentation text.
    pub max_doc_width: usize,
    /// Whether any argument has a short form.
    pub has_short: bool,
    /// The widest long name, if any argument has one.
    pub long_width: Option<usize>,
    /// The widest environment name, if any argument has one.
    pub env_width: Option<usize>,
}

/// The mathematical shape of a [`DocParams`].
pub struct DocParamsView {
    /// View of the documentation width.
    pub max_doc_width: int,
    /// View of the short-form marker.
    pub has_short: bool,
    /// View of the widest long name.
    pub long_width: Option<int>,
    /// View of the widest environment name.
    pub env_width: Option<int>,
}

impl View for DocParams {
    type V = DocParamsView;

    open spec fn view(&self) -> DocParamsView {
        DocParamsView {
            max_doc_width: self.max_doc_width as int,
            has_short: self.has_short,
            long_width: match self.long_width {
                None => None,
                Some(w) => Some(w as int),
            },
            env_width: match self.env_width {
                None => None,
                Some(w) => Some(w as int),
            },
        }
    }
}

impl Default for DocParams {
    /// Nothing measured yet.
    fn default() -> (r: Self)
        ensures
            r == (DocParams {
                max_doc_width: 0,
                has_short: false,
                long_width: None::<usize>,
                env_width: None::<usize>,
            }),
    {
        DocParams { max_doc_width: 0, has_short: false, long_width: None, env_width: None }
    }
}

/// A run of `n` spaces (none when `n` is negative).
pub open spec fn spaces(n: int) -> Seq<char> {
    Seq::new(
        if n >= 0 {
            n as nat
        } else {
            0
        },
        |i: int| ' ',
    )
}

/// Builds a run of spaces, proved equal to [`spaces`].
fn make_spaces(n: usize) -> (r: String)
    ensures
        r@ == spaces(n as int),
{
    let mut s = String::new();
    let mut i: usize = 0;
    proof {
        assert(s@ =~= spaces(0));
    }
    while i < n
        invariant
            i <= n,
            s@ == spaces(i as int),
        decreases n - i,
    {
        s.append(" ");
        proof {
            reveal_strlit(" ");
            assert(" "@ =~= seq![' ']);
            assert(s@ =~= spaces(i + 1));
        }
        i = i + 1;
    }
    s
}

/// Addition capped at the machine's largest length: a column width can
/// never call for more spaces than a string can hold.
pub open spec fn cap_add(a: int, b: int) -> int {
    if a + b > usize::MAX {
        usize::MAX as int
    } else {
        a + b
    }
}

/// The filler standing in for an absent column: one space, or the column's
/// width plus two.
pub open spec fn spec_empty(width: Option<int>) -> Seq<char> {
    match width {
        None => spaces(1),
        Some(x) => spaces(cap_add(x, 2)),
    }
}

/// If `width` is absent, returns a single space; else returns width + 2
/// spaces.
fn empty(width: Option<usize>) -> (r: String)
    ensures
        r@ == spec_empty(
            match width {
                None => None,
                Some(x) => Some(x as int),
            },
        ),
{
    match width {
        None => make_spaces(1),
        Some(x) => {
            let n: u128 = x as u128 + 2;
            if n > usize::MAX as u128 {
                make_spaces(usize::MAX)
            } else {
                make_spaces(n as usize)
            }
        },
    }
}

/// The indentation width that continuation lines of documentation need.
pub open spec fn newline_width(p: DocParamsView) -> int {
    cap_add(
        cap_add(
            if p.has_short {
                6int
            } else {
                0int
            },
            match p.long_width {
                Some(w) => w + 1,
                None => 0,
            },
        ),
        match p.env_width {
            Some(w) => w + 1,
            None => 0,
        },
    )
}

/// Returns the padding necessary for continuing doc lines.
fn doc_newline(params: DocParams) -> (r: String)
    ensures
        r@ == spaces(newline_width(params@)),
{
    let mut width: u128 = if params.has_short {
        6
    } else {
        0
    };
    if let Some(long_width) = params.long_width {
        let add: u128 = long_width as u128 + 1;
        width = if width + add > usize::MAX as u128 {
            usize::MAX as u128
        } else {
            width + add
        };
    }
    if let Some(env_width) = params.env_width {
        let add: u128 = env_width as u128 + 1;
        width = if width + add > usize::MAX as u128 {
            usize::MAX as u128
        } else {
            width + add
        };
    }
    make_spaces(width as usize)
}

/// Hard-wrapped documentation text: characters flow left to right with a
/// running column count; a full line or an embedded newline breaks onto a
/// fresh padded line, and carriage returns are dropped.
pub open spec fn wrap_chars(doc: Seq<char>, w: int, maxw: int, pad: Seq<char>) -> Seq<char>
    decreases doc.len(),
{
    if doc.len() == 0 {
        Seq::empty()
    } else {
        let c = doc[0];
        if w >= maxw {
            seq!['\n', ' '] + pad + seq![c] + wrap_chars(doc.drop_first(), 1, maxw, pad)
        } else if c == '\n' {
            seq!['\n', ' '] + pad + wrap_chars(doc.drop_first(), 0, maxw, pad)
        } else if c != '\r' {
            seq![c] + wrap_chars(doc.drop_first(), w + 1, maxw, pad)
        } else {
            wrap_chars(doc.drop_first(), w, maxw, pad)
        }
    }
}

/// A rendered documentation column: ` : ` then the text, wrapped only when
/// it does not fit the available width.
pub open spec fn spec_wrap_doc(doc: Seq<char>, p: DocParamsView) -> Seq<char> {
    if doc.len() < p.max_doc_width - 1 {
        seq![' ', ':', ' '] + doc
    } else {
        seq![' ', ':', ' '] + wrap_chars(doc, 2, p.max_doc_width, spaces(newline_width(p)))
    }
}

/// Renders the documentation column, proved equal to [`spec_wrap_doc`].
fn wrap_doc(doc: &str, params: DocParams) -> (r: String)
    requires
        params@.max_doc_width > 5,
    ensures
        r@ == spec_wrap_doc(doc@, params@),
{
    proof {
        reveal_strlit(" : ");
        assert(" : "@ =~= seq![' ', ':', ' ']);
        reveal_strlit("\n ");
        assert("\n "@ =~= seq!['\n', ' ']);
    }
    let n = doc.unicode_len();
    let maxw = params.max_doc_width;
    if n < maxw - 1 {
        let r = String::from_str(" : ").concat(doc);
        proof {
            assert(r@ =~= seq![' ', ':', ' '] + doc@);
        }
        r
    } else {
        let mut s = String::from_str(" : ");
        let padding = doc_newline(params);
        let ghost pad = padding@;
        let mut width: usize = 2;
        let mut i: usize = 0;
        proof {
            assert(doc@.subrange(0, n as int) =~= doc@);
        }
        while i < n
            invariant
                n == doc@.len(),
                i <= n,
                maxw == params@.max_doc_width,
                maxw > 5,
                pad == padding@,
                width <= maxw,
                spec_wrap_doc(doc@, params@) == s@ + wrap_chars(
                    doc@.subrange(i as int, n as int),
                    width as int,
                    maxw as int,
                    pad,
                ),
            decreases n - i,
        {
            let ghost rest = doc@.subrange(i as int, n as int);
            proof {
                reveal_strlit("\n ");
                assert("\n "@ =~= seq!['\n', ' ']);
                assert(rest[0] == doc@[i as int]);
                assert(rest.drop_first() =~= doc@.subrange(i + 1, n as int));
            }
            let ch = doc.get_char(i);
            if width >= maxw {
                s.append("\n ");
                s.append(padding.as_str());
                s.append(char_to_string(ch).as_str());
                width = 1;
            } else if ch == '\n' {
                s.append("\n ");
                s.append(padding.as_str());
                width = 0;
            } else if ch != '\r' {
                s.append(char_to_string(ch).as_str());
                width = width + 1;
            }
            i = i + 1;
        }
        proof {
            assert(doc@.subrange(n as int, n as int) =~= Seq::<char>::empty());
        }
        s
    }
}

/// The widths that one more argument's tag forces on the layout: a short
/// form marks the short column, long and environment names widen their
/// columns, and the room left for documentation follows from the rest,
/// never below twelve columns.
pub open spec fn spec_update_params(p: DocParamsView, tag: FullView) -> DocParamsView {
    let lw0 = match p.long_width {
        Some(w) => w,
        None => 0,
    };
    let p1 = match tag.cli {
        Some(crate::tag::CliView::Short(_)) => DocParamsView { has_short: true, ..p },
        Some(crate::tag::CliView::Long(l)) => DocParamsView {
            long_width: Some(
                if lw0 >= l.len() {
                    lw0
                } else {
                    l.len() as int
                },
            ),
            ..p
        },
        Some(crate::tag::CliView::Both(_, l)) => DocParamsView {
            has_short: true,
            long_width: Some(
                if lw0 >= l.len() {
                    lw0
                } else {
                    l.len() as int
                },
            ),
            ..p
        },
        None => p,
    };
    let p2 = match tag.env {
        Some(e) => {
            let ew0 = match p1.env_width {
                Some(w) => w,
                None => 0,
            };
            DocParamsView {
                env_width: Some(
                    if ew0 >= e.len() {
                        ew0
                    } else {
                        e.len() as int
                    },
                ),
                ..p1
            }
        },
        None => p1,
    };
    let used = (if p2.has_short {
        3int
    } else {
        0int
    }) + (match p2.long_width {
        Some(w) => w,
        None => 0,
    }) + (match p2.env_width {
        Some(w) => w,
        None => 0,
    });
    DocParamsView {
        max_doc_width: if 80 - used >= 12 {
            80 - used
        } else {
            12
        },
        ..p2
    }
}

/// Folds one argument's tag into the measured layout, proved equal to
/// [`spec_update_params`].
pub fn update_params(params: &mut DocParams, arg: &Full)
    ensures
        final(params)@ == spec_update_params(old(params)@, arg@),
{
    proof {
        crate::tag::lemma_full_view(arg);
    }
    match &arg.cli {
        Some(Cli::Short(_)) => {
            params.has_short = true;
        },
        Some(Cli::Long(long)) => {
            let len = long.as_str().unicode_len();
            let cur = match params.long_width {
                Some(w) => w,
                None => 0,
            };
            params.long_width = Some(
                if cur >= len {
                    cur
                } else {
                    len
                },
            );
        },
        Some(Cli::Both(_, long)) => {
            params.has_short = true;
            let len = long.as_str().unicode_len();
            let cur = match params.long_width {
                Some(w) => w,
                None => 0,
            };
            params.long_width = Some(
                if cur >= len {
                    cur
                } else {
                    len
                },
            );
        },
        None => {},
    }
    if let Some(env) = &arg.env {
        let len = env.as_str().unicode_len();
        let cur = match params.env_width {
            Some(w) => w,
            None => 0,
        };
        params.env_width = Some(
            if cur >= len {
                cur
            } else {
                len
            },
        );
    }
    let used: u128 = (if params.has_short {
        3u128
    } else {
        0u128
    }) + (match params.long_width {
        Some(w) => w as u128,
        None => 0u128,
    }) + (match params.env_width {
        Some(w) => w as u128,
        None => 0u128,
    });
    params.max_doc_width = if used <= 68 {
        (80 - used) as usize
    } else {
        12
    };
}

/// Whether a layout has room for an argument's tag: its long and
/// environment names fit their columns, and the documentation column is
/// wide enough. [`update_params`] over the whole registry establishes this
/// for each of its arguments.
pub open spec fn params_cover(tag: FullView, p: DocParamsView) -> bool {
    &&& match tag.cli {
        Some(crate::tag::CliView::Long(l)) => p.long_width matches Some(w) && l.len() <= w,
        Some(crate::tag::CliView::Both(_, l)) => p.long_width matches Some(w) && l.len() <= w,
        _ => true,
    }
    &&& match tag.env {
        Some(e) => p.env_width matches Some(w) && e.len() <= w,
        None => true,
    }
    &&& (tag.doc is Some ==> p.max_doc_width > 5)
}

/// The rendered line for one argument: a leading space, the CLI columns,
/// the environment column, then the documentation.
pub open spec fn spec_render_argument(tag: FullView, p: DocParamsView) -> Seq<char> {
    let cli_part = match tag.cli {
        Some(crate::tag::CliView::Short(c)) => seq!['-', c, ' '] + spec_empty(p.long_width),
        Some(crate::tag::CliView::Long(l)) => (if p.has_short {
            spaces(3)
        } else {
            Seq::empty()
        }) + seq!['-', '-'] + l + spaces(
            (match p.long_width {
                Some(w) => w,
                None => 0,
            }) - l.len(),
        ),
        Some(crate::tag::CliView::Both(c, l)) => seq!['-', c, ' ', '-', '-'] + l + spaces(
            (match p.long_width {
                Some(w) => w,
                None => 0,
            }) - l.len(),
        ),
        None => (if p.has_short {
            spaces(4)
        } else {
            Seq::empty()
        }) + (match p.long_width {
            Some(w) => spaces(cap_add(w, 1)),
            None => Seq::empty()
        }),
    };
    let env_part = match tag.env {
        Some(e) => seq![' ', '$'] + e + spaces(
            (match p.env_width {
                Some(w) => w,
                None => 0,
            }) - e.len(),
        ),
        None => spec_empty(p.env_width),
    };
    let doc_part = match tag.doc {
        Some(d) => spec_wrap_doc(d, p),
        None => Seq::empty(),
    };
    seq![' '] + cli_part + env_part + doc_part
}

/// Renders one argument's help line, proved equal to
/// [`spec_render_argument`].
#[verifier::rlimit(80)]
pub fn render_argument(arg: &Full, params: DocParams) -> (r: String)
    requires
        params_cover(arg@, params@),
    ensures
        r@ == spec_render_argument(arg@, params@),
{
    proof {
        crate::tag::lemma_full_view(arg);
        reveal_strlit(" ");
        assert(" "@ =~= seq![' ']);
        reveal_strlit("   ");
        assert("   "@ =~= spaces(3));
        reveal_strlit("    ");
        assert("    "@ =~= spaces(4));
        reveal_strlit("--");
        assert("--"@ =~= seq!['-', '-']);
        reveal_strlit("-");
        assert("-"@ =~= seq!['-']);
        reveal_strlit(" --");
        assert(" --"@ =~= seq![' ', '-', '-']);
        reveal_strlit(" $");
        assert(" $"@ =~= seq![' ', '$']);
    }
    let mut s = String::from_str(" ");
    match &arg.cli {
        Some(Cli::Short(short)) => {
            s.append("-");
            s.append(char_to_string(*short).as_str());
            s.append(" ");
            s.append(empty(params.long_width).as_str());
            proof {
                assert(s@ =~= seq![' '] + (seq!['-', *short, ' '] + spec_empty(params@.long_width)));
            }
        },
        Some(Cli::Long(long)) => {
            if params.has_short {
                s.append("   ");
            }
            s.append("--");
            s.append(long.as_str());
            let w = match params.long_width {
                Some(w) => w,
                None => 0,
            };
            let len = long.as_str().unicode_len();
            s.append(make_spaces(w - len).as_str());
            proof {
                assert(s@ =~= seq![' '] + ((if params@.has_short {
                    spaces(3)
                } else {
                    Seq::<char>::empty()
                }) + seq!['-', '-'] + long@ + spaces(
                    (match params@.long_width {
                        Some(w) => w,
                        None => 0,
                    }) - long@.len(),
                )));
            }
        },
        Some(Cli::Both(short, long)) => {
            s.append("-");
            s.append(char_to_string(*short).as_str());
            s.append(" --");
            s.append(long.as_str());
            let w = match params.long_width {
                Some(w) => w,
                None => 0,
            };
            let len = long.as_str().unicode_len();
            s.append(make_spaces(w - len).as_str());
            proof {
                assert(s@ =~= seq![' '] + (seq!['-', *short, ' ', '-', '-'] + long@ + spaces(
                    (match params@.long_width {
                        Some(w) => w,
                        None => 0,
                    }) - long@.len(),
                )));
            }
        },
        None => {
            if params.has_short {
                s.append("    ");
            }
            if let Some(width) = params.long_width {
                let n: u128 = width as u128 + 1;
                if n > usize::MAX as u128 {
                    s.append(make_spaces(usize::MAX).as_str());
                } else {
                    s.append(make_spaces(n as usize).as_str());
                }
            }
            proof {
                assert(s@ =~= seq![' '] + ((if params@.has_short {
                    spaces(4)
                } else {
                    Seq::<char>::empty()
                }) + (match params@.long_width {
                    Some(w) => spaces(cap_add(w, 1)),
                    None => Seq::<char>::empty(),
                })));
            }
        },
    }
    let ghost cli_done = s@;
    match &arg.env {
        Some(env) => {
            s.append(" $");
            s.append(env.as_str());
            let w = match params.env_width {
                Some(w) => w,
                None => 0,
            };
            let len = env.as_str().unicode_len();
            s.append(make_spaces(w - len).as_str());
            proof {
                assert(s@ =~= cli_done + (seq![' ', '$'] + env@ + spaces(
                    (match params@.env_width {
                        Some(w) => w,
                        None => 0,
                    }) - env@.len(),
                )));
            }
        },
        None => {
            s.append(empty(params.env_width).as_str());
        },
    }
    let ghost env_done = s@;
    if let Some(doc) = &arg.doc {
        s.append(wrap_doc(doc.as_str(), params).as_str());
    }
    proof {
        assert(s@ =~= spec_render_argument(arg@, params@));
    }
    s
}

/// The tags of a registry.
pub open spec fn tags_of(slots: Seq<crate::model::SlotView>) -> Seq<FullView> {
    slots.map_values(|s: crate::model::SlotView| s.tag)
}

/// An unmeasured layout.
pub open spec fn initial_params() -> DocParamsView {
    DocParamsView { max_doc_width: 0, has_short: false, long_width: None, env_width: None }
}

/// The layout measured over a whole registry, one tag at a time.
pub open spec fn measure_params(tags: Seq<FullView>, p: DocParamsView) -> DocParamsView
    decreases tags.len(),
{
    if tags.len() == 0 {
        p
    } else {
        measure_params(tags.drop_first(), spec_update_params(p, tags[0]))
    }
}

/// One measured line per argument, each ended by a newline.
pub open spec fn render_lines(tags: Seq<FullView>, p: DocParamsView) -> Seq<char>
    decreases tags.len(),
{
    if tags.len() == 0 {
        Seq::empty()
    } else {
        spec_render_argument(tags[0], p) + seq!['\n'] + render_lines(tags.drop_first(), p)
    }
}

/// The whole help text: the program name and usage line, the program-level
/// documentation if any, then one line per argument, laid out under the
/// widths measured over the whole registry.
pub open spec fn spec_help_text(
    slots: Seq<crate::model::SlotView>,
    doc: Option<Seq<char>>,
    program: Seq<char>,
) -> Seq<char> {
    let tags = tags_of(slots);
    program + " [options...] <arguments...>\n"@ + (match doc {
        Some(d) => d + "\n\n"@,
        None => Seq::empty(),
    }) + render_lines(tags, measure_params(tags, initial_params()))
}

/// Columns never shrink as more tags are measured.
pub open spec fn params_le(a: DocParamsView, b: DocParamsView) -> bool {
    &&& (a.has_short ==> b.has_short)
    &&& (match a.long_width {
        Some(w) => b.long_width matches Some(w2) && w <= w2,
        None => true,
    })
    &&& (match a.env_width {
        Some(w) => b.env_width matches Some(w2) && w <= w2,
        None => true,
    })
}

proof fn lemma_update_grows(p: DocParamsView, t: FullView)
    ensures
        params_le(p, spec_update_params(p, t)),
        spec_update_params(p, t).max_doc_width >= 12,
        params_cover(t, spec_update_params(p, t)),
{
}

proof fn lemma_measure_grows(tags: Seq<FullView>, p: DocParamsView)
    ensures
        params_le(p, measure_params(tags, p)),
        tags.len() > 0 ==> measure_params(tags, p).max_doc_width >= 12,
    decreases tags.len(),
{
    if tags.len() > 0 {
        lemma_update_grows(p, tags[0]);
        lemma_measure_grows(tags.drop_first(), spec_update_params(p, tags[0]));
    }
}

/// The layout measured over a whole registry has room for each of its
/// arguments.
pub proof fn lemma_measure_covers(tags: Seq<FullView>, p: DocParamsView, i: int)
    requires
        0 <= i < tags.len(),
    ensures
        params_cover(tags[i], measure_params(tags, p)),
    decreases i,
{
    let q = spec_update_params(p, tags[0]);
    if i == 0 {
        lemma_update_grows(p, tags[0]);
        lemma_measure_grows(tags.drop_first(), q);
    } else {
        lemma_measure_covers(tags.drop_first(), q, i - 1);
        assert(tags.drop_first()[i - 1] == tags[i]);
    }
}

} // verus!
