//! The bulk loader's decision logic: file selection by suffix, per-file
//! failure swallowing, and aggregation of decoded objects in discovery
//! order.
//!
//! Problems local to one file (an unreadable file, a malformed document, a
//! strict field that fails to decode) make that file contribute zero
//! objects and never abort the whole load. A failure of the directory
//! traversal itself is fatal and is raised by the collaborator that walks
//! the directories, before this logic runs.

use crate::decode::decode_document;
use crate::decode::decode_document_spec;
use crate::decode::RawObjectV;
use crate::decode::RawSpec;
use crate::model::Object;
use crate::model::ObjectV;
use crate::strutil::str_ends_with;
use vstd::prelude::*;

verus! {

/// One discovered file, as the traversal collaborator hands it over: its
/// path, and its raw document where the file could be opened, read as
/// UTF-8 text and parsed, or nothing where any of that failed.
pub struct SpecFile {
    /// The path of the file, as text.
    pub path: String,
    /// The raw document read from the file, if it could be read and parsed.
    pub content: Option<RawSpec>,
}

/// The mathematical value of a [`SpecFile`].
pub ghost struct SpecFileV {
    /// The characters of the path.
    pub path: Seq<char>,
    /// The raw document values, if the file could be read and parsed.
    pub content: Option<Seq<RawObjectV>>,
}

impl View for SpecFile {
    type V = SpecFileV;

    open spec fn view(&self) -> SpecFileV {
        SpecFileV { path: self.path@, content: self.content.deep_view() }
    }
}

impl DeepView for SpecFile {
    type V = SpecFileV;

    open spec fn deep_view(&self) -> SpecFileV {
        self.view()
    }
}

/// The path ends with the literal suffix `.xml`, case-sensitively.
pub open spec fn is_xml_path(p: Seq<char>) -> bool {
    p.len() >= 4 && p.subrange(p.len() - 4, p.len() as int) == ".xml"@
}

/// Decide whether a discovered file is selected for decoding: only files
/// whose path ends with the literal suffix `.xml`, case-sensitively.
pub fn is_xml_file(path: &str) -> (r: bool)
    ensures
        r == is_xml_path(path@),
{
    proof {
        reveal_strlit(".xml");
    }
    str_ends_with(path, ".xml")
}

/// The objects one discovered file contributes: all the objects of its
/// document where the file is selected, was readable and decodes; zero
/// objects otherwise.
pub open spec fn file_objects(f: SpecFileV) -> Seq<ObjectV> {
    if !is_xml_path(f.path) {
        Seq::empty()
    } else {
        match f.content {
            Some(doc) => match decode_document_spec(doc) {
                Ok(objs) => objs,
                Err(_) => Seq::empty(),
            },
            None => Seq::empty(),
        }
    }
}

/// The aggregated objects of a sequence of discovered files, concatenated
/// in discovery order.
pub open spec fn loaded_objects(files: Seq<SpecFileV>) -> Seq<ObjectV>
    decreases files.len(),
{
    if files.len() == 0 {
        Seq::empty()
    } else {
        loaded_objects(files.drop_last()) + file_objects(files.last())
    }
}

/// Aggregate the objects of the discovered files, in discovery order. A
/// file that is not selected, could not be read, or whose document fails
/// to decode contributes zero objects; the load itself never fails.
pub fn load_objects(files: &Vec<SpecFile>) -> (objs: Vec<Object>)
    ensures
        objs.deep_view() == loaded_objects(files.deep_view()),
{
    let ghost files_v = files.deep_view();
    let mut out: Vec<Object> = Vec::new();
    proof {
        assert(out.deep_view() =~= Seq::<ObjectV>::empty());
        assert(files_v.take(0) =~= Seq::<SpecFileV>::empty());
    }
    let mut i: usize = 0;
    while i < files.len()
        invariant
            i <= files.len(),
            files_v == files.deep_view(),
            out.deep_view() == loaded_objects(files_v.take(i as int)),
        decreases files.len() - i,
    {
        proof {
            assert(files_v.take(i + 1).drop_last() =~= files_v.take(i as int));
            assert(files_v.take(i + 1).last() == files_v[i as int]);
        }
        let ghost prev = out.deep_view();
        let file = &files[i];
        if is_xml_file(file.path.as_str()) {
            match &file.content {
                Some(doc) => {
                    match decode_document(doc) {
                        Ok(mut spec) => {
                            let ghost decoded = spec.objects.deep_view();
                            out.append(&mut spec.objects);
                            proof {
                                assert(out.deep_view() =~= prev + decoded);
                            }
                        },
                        Err(_) => {
                            proof {
                                assert(out.deep_view() =~= prev + Seq::<ObjectV>::empty());
                            }
                        },
                    }
                },
                None => {
                    proof {
                        assert(out.deep_view() =~= prev + Seq::<ObjectV>::empty());
                    }
                },
            }
        } else {
            proof {
                assert(out.deep_view() =~= prev + Seq::<ObjectV>::empty());
            }
        }
        i = i + 1;
    }
    proof {
        assert(files_v.take(files_v.len() as int) =~= files_v);
    }
    out
}

} // verus!
