//! The site's own page data: the education table, read from a local
//! JSON file and shown newest first.

use vstd::prelude::*;

use crate::json::{spec_parse_json, Json, JsonModel};
use crate::riot::spec_str_field;

verus! {

/// One course row of the education page.
pub struct Course {
    pub course_code: String,
    pub course_name: String,
    pub year: String,
    pub grade: String,
}

/// The mathematical shape of a course row.
pub struct CourseModel {
    pub course_code: Seq<char>,
    pub course_name: Seq<char>,
    pub year: Seq<char>,
    pub grade: Seq<char>,
}

impl View for Course {
    type V = CourseModel;

    open spec fn view(&self) -> CourseModel {
        CourseModel {
            course_code: self.course_code@,
            course_name: self.course_name@,
            year: self.year@,
            grade: self.grade@,
        }
    }
}

/// The course an object denotes: all four strings required.
pub open spec fn spec_course_of(v: JsonModel) -> Option<CourseModel> {
    let course_code = spec_str_field(v, "course_code"@);
    let course_name = spec_str_field(v, "course_name"@);
    let year = spec_str_field(v, "year"@);
    let grade = spec_str_field(v, "grade"@);
    if course_code is Some && course_name is Some && year is Some && grade is Some {
        Some(
            CourseModel {
                course_code: course_code->Some_0,
                course_name: course_name->Some_0,
                year: year->Some_0,
                grade: grade->Some_0,
            },
        )
    } else {
        None
    }
}

/// The course list a file denotes: an array of well-formed courses,
/// or nothing.
pub open spec fn spec_course_seq(a: Seq<JsonModel>) -> Option<Seq<CourseModel>>
    decreases a.len(),
{
    if a.len() == 0 {
        Some(Seq::empty())
    } else {
        match (spec_course_of(a[0]), spec_course_seq(a.drop_first())) {
            (Some(m), Some(rest)) => Some(seq![m] + rest),
            _ => None,
        }
    }
}

/// The view of a course list.
pub open spec fn spec_courses_view(cs: Seq<Course>) -> Seq<CourseModel> {
    Seq::new(cs.len(), |i: int| cs[i]@)
}

fn course_of(v: &Json) -> (r: Option<Course>)
    ensures
        match r {
            Some(c) => spec_course_of(v@) == Some(c@),
            None => spec_course_of(v@) is None,
        },
{
    let course_code = match crate::riot::json_str_field(v, "course_code") {
        Some(s) => s,
        None => {
            return None;
        },
    };
    let course_name = match crate::riot::json_str_field(v, "course_name") {
        Some(s) => s,
        None => {
            return None;
        },
    };
    let year = match crate::riot::json_str_field(v, "year") {
        Some(s) => s,
        None => {
            return None;
        },
    };
    let grade = match crate::riot::json_str_field(v, "grade") {
        Some(s) => s,
        None => {
            return None;
        },
    };
    Some(Course { course_code, course_name, year, grade })
}

fn course_items(a: &Vec<Json>, k: usize) -> (r: Option<Vec<Course>>)
    requires
        k <= a@.len(),
    ensures
        match r {
            Some(cs) => spec_course_seq(crate::json::spec_elems_view(a@).skip(k as int)) == Some(
                spec_courses_view(cs@),
            ),
            None => spec_course_seq(crate::json::spec_elems_view(a@).skip(k as int)) is None,
        },
    decreases a@.len() - k,
{
    let ghost full = crate::json::spec_elems_view(a@);
    if k == a.len() {
        let cs: Vec<Course> = Vec::new();
        proof {
            assert(full.skip(k as int) =~= Seq::<JsonModel>::empty());
            assert(spec_courses_view(cs@) =~= Seq::<CourseModel>::empty());
        }
        return Some(cs);
    }
    proof {
        assert(full.skip(k as int)[0] == a@[k as int]@);
    }
    let c = match course_of(&a[k]) {
        Some(c) => c,
        None => {
            return None;
        },
    };
    let rest = match course_items(a, k + 1) {
        Some(r) => r,
        None => {
            proof {
                assert(full.skip(k as int).drop_first() =~= full.skip(k + 1));
            }
            return None;
        },
    };
    let mut out: Vec<Course> = Vec::new();
    let ghost c0 = c@;
    out.push(c);
    let mut tail = rest;
    let ghost tail0 = tail@;
    out.append(&mut tail);
    proof {
        assert(full.skip(k as int).drop_first() =~= full.skip(k + 1));
        assert(spec_courses_view(out@) =~= seq![c0] + spec_courses_view(tail0));
    }
    Some(out)
}

/// The education page's rows: the courses the file holds, newest
/// (last-written) first. Exactly the files holding a JSON array of
/// well-formed courses give rows; any other file is `None`.
pub fn education_courses(text: &str) -> (r: Option<Vec<Course>>)
    ensures
        match r {
            Some(cs) => spec_parse_json(text@) matches Some(v) && v matches JsonModel::Arr(a)
                && spec_course_seq(a) == Some(spec_courses_view(cs@).reverse()),
            None => match spec_parse_json(text@) {
                Some(v) => !(v is Arr) || (v matches JsonModel::Arr(a) && spec_course_seq(
                    a,
                ) is None),
                None => true,
            },
        },
{
    let v = match crate::json::parse_json(text) {
        Some(v) => v,
        None => {
            return None;
        },
    };
    let a = match v.as_arr() {
        Some(a) => a,
        None => {
            return None;
        },
    };
    proof {
        assert(crate::json::spec_elems_view(a@).skip(0) =~= crate::json::spec_elems_view(a@));
    }
    let cs = match course_items(a, 0) {
        Some(cs) => cs,
        None => {
            return None;
        },
    };
    // newest rows sit at the file's end: show them first
    let mut rev: Vec<Course> = Vec::new();
    let n = cs.len();
    for i in 0..n
        invariant
            n == cs@.len(),
            rev@.len() == i,
            forall|j: int| 0 <= j < i ==> rev@[j] == cs@[n - 1 - j],
    {
        let idx = n - 1 - i;
        let c = course_of_clone(&cs[idx]);
        rev.push(c);
    }
    proof {
        assert(spec_courses_view(cs@) =~= spec_courses_view(rev@).reverse());
    }
    Some(rev)
}

fn course_of_clone(c: &Course) -> (r: Course)
    ensures
        r == *c,
{
    Course {
        course_code: c.course_code.clone(),
        course_name: c.course_name.clone(),
        year: c.year.clone(),
        grade: c.grade.clone(),
    }
}

} // verus!
