//! The transform request, the canonical name of the variant it yields, and the
//! external command that produces that variant.
use vstd::prelude::*;
use vstd::string::*;

use crate::text::{decimal, push_decimal};

verus! {

/// A transform request. Width takes precedence over height: only one
/// dimension is ever given to the resizer, which keeps the aspect ratio.
#[derive(Clone, Copy, Debug, PartialEq, Eq)]
pub struct Filter {
    pub width: Option<u32>,
    pub height: Option<u32>,
    pub quality: Option<u8>,
    pub webp: bool,
}

/// The resize token of a name: `.w<width>`, else `.h<height>`, else nothing.
pub open spec fn size_token(f: Filter) -> Seq<char> {
    match f.width {
        Some(w) => ".w"@ + decimal(w as nat),
        None => match f.height {
            Some(h) => ".h"@ + decimal(h as nat),
            None => Seq::empty(),
        },
    }
}

/// The whole suffix of a name: the resize token, then `q<quality>`, with a
/// `.` in front of the quality when there is no resize token.
pub open spec fn filter_suffix(f: Filter) -> Seq<char> {
    match f.quality {
        Some(q) => if f.width is Some || f.height is Some {
            size_token(f) + "q"@ + decimal(q as nat)
        } else {
            "."@ + "q"@ + decimal(q as nat)
        },
        None => size_token(f),
    }
}

/// The extension of a variant: `webp` when conversion is asked for.
pub open spec fn variant_extension(ext: Seq<char>, f: Filter) -> Seq<char> {
    if f.webp {
        "webp"@
    } else {
        ext
    }
}

/// The canonical name of the variant of `base.ext` that `filter` asks for.
pub open spec fn cache_key_spec(base: Seq<char>, ext: Seq<char>, filter: Option<Filter>) -> Seq<
    char,
> {
    match filter {
        None => base + "."@ + ext,
        Some(f) => base + filter_suffix(f) + "."@ + variant_extension(ext, f),
    }
}

/// Derives the canonical file name of a variant from the base name, the
/// requested extension and the transform request; it serves as the cache key.
pub fn cache_key(base: &str, ext: &str, filter: Option<Filter>) -> (r: String)
    ensures
        r@ == cache_key_spec(base@, ext@, filter),
{
    let mut out = String::from_str(base);
    match filter {
        None => {
            out.append(".");
            out.append(ext);
        },
        Some(f) => {
            let sized = f.width.is_some() || f.height.is_some();
            match f.width {
                Some(w) => {
                    out.append(".w");
                    push_decimal(&mut out, w);
                },
                None => match f.height {
                    Some(h) => {
                        out.append(".h");
                        push_decimal(&mut out, h);
                    },
                    None => {},
                },
            }
            assert(out@ =~= base@ + size_token(f));
            match f.quality {
                Some(q) => {
                    if !sized {
                        out.append(".");
                    }
                    out.append("q");
                    push_decimal(&mut out, q as u32);
                },
                None => {},
            }
            assert(out@ =~= base@ + filter_suffix(f));
            out.append(".");
            if f.webp {
                out.append("webp");
            } else {
                out.append(ext);
            }
        },
    }
    assert(out@ =~= cache_key_spec(base@, ext@, filter));
    out
}

} // verus!

verus! {

/// What a list of arguments reads as.
pub open spec fn arg_views(v: Seq<String>) -> Seq<Seq<char>> {
    v.map_values(|a: String| a@)
}

/// The argument vector that copies `input` to `output` unchanged.
pub open spec fn copy_args(input: Seq<char>, output: Seq<char>) -> Seq<Seq<char>> {
    seq!["cp"@, input, output]
}

/// The quality arguments, when a quality is asked for.
pub open spec fn quality_args(f: Filter) -> Seq<Seq<char>> {
    match f.quality {
        Some(q) => seq!["-q"@, decimal(q as nat)],
        None => Seq::empty(),
    }
}

/// The webp encoder's resize arguments: 0 stands for the axis that is left
/// to follow the aspect ratio.
pub open spec fn webp_resize_args(f: Filter) -> Seq<Seq<char>> {
    match f.width {
        Some(w) => seq!["-resize"@, decimal(w as nat), "0"@],
        None => match f.height {
            Some(h) => seq!["-resize"@, "0"@, decimal(h as nat)],
            None => Seq::empty(),
        },
    }
}

/// The raster converter's resize arguments: `<width>` or `x<height>`.
pub open spec fn raster_resize_args(f: Filter) -> Seq<Seq<char>> {
    match f.width {
        Some(w) => seq!["-resize"@, decimal(w as nat)],
        None => match f.height {
            Some(h) => seq!["-resize"@, "x"@ + decimal(h as nat)],
            None => Seq::empty(),
        },
    }
}

/// The program and arguments that turn `input` into the variant `output`.
pub open spec fn filter_args(f: Filter, input: Seq<char>, output: Seq<char>) -> Seq<Seq<char>> {
    if f.webp {
        seq!["cwebp"@] + quality_args(f) + webp_resize_args(f) + seq![input, "-o"@, output]
    } else if f.width is None && f.height is None && f.quality is None {
        copy_args(input, output)
    } else {
        seq!["convert"@] + raster_resize_args(f) + quality_args(f) + seq![input, output]
    }
}

fn push_arg(args: &mut Vec<String>, a: String)
    ensures
        arg_views(final(args)@) == arg_views(old(args)@).push(a@),
{
    let ghost v = a@;
    args.push(a);
    assert(arg_views(args@) =~= arg_views(old(args)@).push(v));
}

fn number_arg(n: u32) -> (r: String)
    ensures
        r@ == decimal(n as nat),
{
    let mut s = String::new();
    push_decimal(&mut s, n);
    assert(s@ =~= decimal(n as nat));
    s
}

/// The argument vector that copies `input` to `output`.
pub fn copy_command(input: &str, output: &str) -> (r: Vec<String>)
    ensures
        arg_views(r@) == copy_args(input@, output@),
{
    let mut args: Vec<String> = Vec::new();
    push_arg(&mut args, String::from_str("cp"));
    push_arg(&mut args, String::from_str(input));
    push_arg(&mut args, String::from_str(output));
    assert(arg_views(args@) =~= copy_args(input@, output@));
    args
}

impl Filter {
    /// The program and arguments that turn the file `input` into `output`
    /// as this request asks. No shell reads them.
    pub fn get_command(self, input: &str, output: &str) -> (r: Vec<String>)
        ensures
            arg_views(r@) == filter_args(self, input@, output@),
    {
        let mut args: Vec<String> = Vec::new();
        if self.webp {
            push_arg(&mut args, String::from_str("cwebp"));
            if let Some(q) = self.quality {
                push_arg(&mut args, String::from_str("-q"));
                push_arg(&mut args, number_arg(q as u32));
            }
            assert(arg_views(args@) =~= seq!["cwebp"@] + quality_args(self));
            match self.width {
                Some(w) => {
                    push_arg(&mut args, String::from_str("-resize"));
                    push_arg(&mut args, number_arg(w));
                    push_arg(&mut args, String::from_str("0"));
                },
                None => if let Some(h) = self.height {
                    push_arg(&mut args, String::from_str("-resize"));
                    push_arg(&mut args, String::from_str("0"));
                    push_arg(&mut args, number_arg(h));
                },
            }
            assert(arg_views(args@) =~= seq!["cwebp"@] + quality_args(self) + webp_resize_args(
                self,
            ));
            push_arg(&mut args, String::from_str(input));
            push_arg(&mut args, String::from_str("-o"));
            push_arg(&mut args, String::from_str(output));
            assert(arg_views(args@) =~= filter_args(self, input@, output@));
            args
        } else if self.width.is_none() && self.height.is_none() && self.quality.is_none() {
            copy_command(input, output)
        } else {
            push_arg(&mut args, String::from_str("convert"));
            match self.width {
                Some(w) => {
                    push_arg(&mut args, String::from_str("-resize"));
                    push_arg(&mut args, number_arg(w));
                },
                None => if let Some(h) = self.height {
                    push_arg(&mut args, String::from_str("-resize"));
                    let mut size = String::from_str("x");
                    push_decimal(&mut size, h);
                    push_arg(&mut args, size);
                },
            }
            assert(arg_views(args@) =~= seq!["convert"@] + raster_resize_args(self));
            if let Some(q) = self.quality {
                push_arg(&mut args, String::from_str("-q"));
                push_arg(&mut args, number_arg(q as u32));
            }
            assert(arg_views(args@) =~= seq!["convert"@] + raster_resize_args(self)
                + quality_args(self));
            push_arg(&mut args, String::from_str(input));
            push_arg(&mut args, String::from_str(output));
            assert(arg_views(args@) =~= filter_args(self, input@, output@));
            args
        }
    }
}

} // verus!

verus! {

/// The name of a variant depends on the base name, the extension and the
/// transform request alone: equal triples give equal names, on every call.
pub proof fn lemma_cache_key_deterministic(
    base1: Seq<char>,
    ext1: Seq<char>,
    filter1: Option<Filter>,
    base2: Seq<char>,
    ext2: Seq<char>,
    filter2: Option<Filter>,
)
    requires
        base1 == base2,
        ext1 == ext2,
        filter1 == filter2,
    ensures
        cache_key_spec(base1, ext1, filter1) == cache_key_spec(base2, ext2, filter2),
{
}

/// Where a request gives both a width and a height, only the width counts:
/// the name carries the width token alone, and the command resizes by the
/// width alone, exactly as if no height had been given.
pub proof fn lemma_width_precedence(base: Seq<char>, ext: Seq<char>, f: Filter, input: Seq<char>)
    requires
        f.width is Some,
        f.height is Some,
    ensures
        size_token(f) == ".w"@ + decimal(f.width->0 as nat),
        cache_key_spec(base, ext, Some(f)) == cache_key_spec(
            base,
            ext,
            Some(Filter { height: None, ..f }),
        ),
        filter_args(f, input, cache_key_spec(base, ext, Some(f))) == filter_args(
            Filter { height: None, ..f },
            input,
            cache_key_spec(base, ext, Some(Filter { height: None, ..f })),
        ),
{
}

/// Without a transform request a variant is named `<base>.<ext>`.
pub proof fn lemma_identity_key(base: Seq<char>, ext: Seq<char>)
    ensures
        cache_key_spec(base, ext, None) == base + "."@ + ext,
{
}

} // verus!
