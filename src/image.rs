//! The descriptor of one requested image: its base name, its extension, the
//! transform asked of it, and the name of the variant that results.
use vstd::prelude::*;
use vstd::string::*;

use crate::filter::{arg_views, cache_key, cache_key_spec, copy_args, copy_command, filter_args, Filter};
use crate::text::{lemma_split_last_rejoins, split_last, split_last_spec};

verus! {

/// An image request as names: the name as requested, split into
/// `<name>.<image_type>`, a transform, and the file name of the variant to
/// serve.
#[derive(Debug)]
pub struct Image {
    requested: String,
    name: String,
    image_type: String,
    filter: Option<Filter>,
    file_name: String,
}

/// What an `Image` holds, as character sequences.
pub struct ImageView {
    pub requested: Seq<char>,
    pub name: Seq<char>,
    pub image_type: Seq<char>,
    pub filter: Option<Filter>,
    pub file_name: Seq<char>,
}

impl View for Image {
    type V = ImageView;

    closed spec fn view(&self) -> ImageView {
        ImageView {
            requested: self.requested@,
            name: self.name@,
            image_type: self.image_type@,
            filter: self.filter,
            file_name: self.file_name@,
        }
    }
}

/// The transform that is kept for an image of extension `image_type`: a webp
/// source always yields webp.
pub open spec fn attached_filter(image_type: Seq<char>, filter: Option<Filter>) -> Option<Filter> {
    match filter {
        None => None,
        Some(f) => Some(
            if image_type == "webp"@ {
                Filter { webp: true, ..f }
            } else {
                f
            },
        ),
    }
}

/// The file name to serve for a request of `img` once `filter` is its
/// transform: the canonical name of the variant, or the name as requested
/// where no transform is left.
pub open spec fn variant_name(img: ImageView, filter: Option<Filter>) -> Seq<char> {
    match filter {
        Some(_) => cache_key_spec(img.name, img.image_type, filter),
        None => img.requested,
    }
}

/// The program and arguments that make the variant `img` names from `source`.
pub open spec fn image_args(img: ImageView, source: Seq<char>) -> Seq<Seq<char>> {
    match img.filter {
        None => copy_args(source, img.file_name),
        Some(f) => filter_args(f, source, img.file_name),
    }
}

impl Image {
    /// A request for `file_name` as it stands: split at its last `.` into the
    /// base name and the extension, with no transform.
    pub fn new(file_name: &str) -> (r: Image)
        ensures
            r@ == (ImageView {
                requested: file_name@,
                name: split_last_spec(file_name@, '.').0,
                image_type: split_last_spec(file_name@, '.').1,
                filter: None,
                file_name: file_name@,
            }),
    {
        let (name, image_type) = split_last(file_name, '.');
        Image {
            requested: String::from_str(file_name),
            name: String::from_str(name),
            image_type: String::from_str(image_type),
            filter: None,
            file_name: String::from_str(file_name),
        }
    }

    /// Attaches a transform, or removes it with `None`. The file name becomes
    /// the canonical name of the variant that results, or the name as
    /// requested where no transform is left.
    pub fn filter(&mut self, filter: Option<Filter>)
        ensures
            final(self)@.requested == old(self)@.requested,
            final(self)@.name == old(self)@.name,
            final(self)@.image_type == old(self)@.image_type,
            final(self)@.filter == attached_filter(old(self)@.image_type, filter),
            final(self)@.file_name == variant_name(old(self)@, final(self)@.filter),
    {
        let webp = String::from_str("webp");
        let is_webp = self.image_type == webp;
        self.filter = match filter {
            None => None,
            Some(f) => Some(
                if is_webp {
                    Filter { webp: true, ..f }
                } else {
                    f
                },
            ),
        };
        self.file_name = match self.filter {
            Some(_) => cache_key(self.name.as_str(), self.image_type.as_str(), self.filter),
            None => self.requested.clone(),
        };
    }

    /// Attaches the transform that `parsed` holds, the result of decoding the
    /// query string `qs` (`None` where it could not be decoded). An empty
    /// query string leaves the request as it is; one that could not be
    /// decoded asks for no transform, so the name as requested is served.
    pub fn filter_from_qs(&mut self, qs: &str, parsed: Option<Filter>)
        ensures
            qs@.len() == 0 ==> final(self)@ == old(self)@,
            qs@.len() != 0 ==> final(self)@.requested == old(self)@.requested,
            qs@.len() != 0 ==> final(self)@.name == old(self)@.name,
            qs@.len() != 0 ==> final(self)@.image_type == old(self)@.image_type,
            qs@.len() != 0 ==> final(self)@.filter == attached_filter(old(self)@.image_type, parsed),
            qs@.len() != 0 ==> final(self)@.file_name == variant_name(old(self)@, final(self)@.filter),
            qs@.len() != 0 && parsed is None ==> final(self)@.filter is None,
            qs@.len() != 0 && parsed is None ==> final(self)@.file_name == old(self)@.requested,
    {
        if qs.is_empty() {
            return ;
        }
        self.filter(parsed);
    }

    /// The media type of the image: `image/<extension>`.
    pub fn to_mime_str(&self) -> (r: String)
        ensures
            r@ == "image/"@ + self@.image_type,
    {
        let mut s = String::from_str("image/");
        s.append(self.image_type.as_str());
        s
    }

    /// The program and arguments that make this variant from `source_file`.
    pub fn get_command(&self, source_file: &str) -> (r: Vec<String>)
        ensures
            arg_views(r@) == image_args(self@, source_file@),
    {
        match self.filter {
            None => copy_command(source_file, self.file_name.as_str()),
            Some(f) => f.get_command(source_file, self.file_name.as_str()),
        }
    }

    /// The base name: what precedes the last `.` of the requested name.
    pub fn name(&self) -> (r: &str)
        ensures
            r@ == self@.name,
    {
        self.name.as_str()
    }

    /// The extension of the requested name.
    pub fn image_type(&self) -> (r: &str)
        ensures
            r@ == self@.image_type,
    {
        self.image_type.as_str()
    }

    /// The file name of the variant to serve, which keys the cache.
    pub fn file_name(&self) -> (r: &str)
        ensures
            r@ == self@.file_name,
    {
        self.file_name.as_str()
    }

    /// The transform attached to this request.
    pub fn filter_spec(&self) -> (r: Option<Filter>)
        ensures
            r == self@.filter,
    {
        self.filter
    }
}

} // verus!

verus! {

/// A request for `<base>.<ext>` with no transform keeps its name, which is
/// the identity name of the variant, and is served by copying the source
/// file unchanged to that name.
pub proof fn lemma_identity_request(file_name: Seq<char>, img: ImageView, source: Seq<char>)
    requires
        file_name.contains('.'),
        img == (ImageView {
            requested: file_name,
            name: split_last_spec(file_name, '.').0,
            image_type: split_last_spec(file_name, '.').1,
            filter: None,
            file_name: file_name,
        }),
    ensures
        img.file_name == cache_key_spec(img.name, img.image_type, None),
        image_args(img, source) == seq!["cp"@, source, cache_key_spec(img.name, img.image_type, None)],
{
    lemma_split_last_rejoins(file_name, '.');
    reveal_strlit(".");
    assert(img.file_name =~= cache_key_spec(img.name, img.image_type, None));
}

} // verus!
