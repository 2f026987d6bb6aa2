//! Students and the lists they are enrolled in.

use vstd::prelude::*;

verus! {

/// A student with a name and a major.
#[derive(Debug)]
pub struct Student {
    pub name: String,
    pub major: String,
}

impl Student {
    /// The student named `n` who studies `m`.
    pub fn new(n: String, m: String) -> (student: Student)
        ensures
            student.name@ == n@,
            student.major@ == m@,
    {
        Self { name: n, major: m }
    }

    /// What the student studies.
    pub fn get_major(&self) -> (major: &String)
        ensures
            major@ == self.major@,
    {
        &self.major
    }

    /// Makes `new_major` what the student studies; the name stays.
    pub fn set_major(&mut self, new_major: String)
        ensures
            final(self).major@ == new_major@,
            final(self).name@ == old(self).name@,
    {
        self.major = new_major;
    }
}

/// Something that can describe itself in a few lines of text.
pub trait ShowInfo {
    /// The description.
    fn show_info(&self) -> String;
}

/// The students enrolled, in the order in which they were added.
pub struct Enrollment<T: ShowInfo> {
    pub students: Vec<T>,
}

impl<T: ShowInfo> Enrollment<T> {
    /// An enrollment without students.
    pub fn new() -> (enrollment: Self)
        ensures
            enrollment.students@ == Seq::<T>::empty(),
    {
        Enrollment { students: Vec::new() }
    }

    /// Enrolls `student` after those already enrolled.
    pub fn add_student(&mut self, student: T)
        ensures
            final(self).students@ == old(self).students@.push(student),
    {
        self.students.push(student);
    }

    /// The descriptions of all students, one for each and in their order:
    /// each is what that student's `show_info` gave.
    pub fn show_all(&self) -> (shown: Vec<String>)
        ensures
            shown.len() == self.students.len(),
            forall|i: int|
                0 <= i < shown.len() ==> call_ensures(
                    T::show_info,
                    (&self.students[i],),
                    #[trigger] shown[i],
                ),
    {
        let mut shown: Vec<String> = Vec::new();
        let mut i: usize = 0;
        while i < self.students.len()
            invariant
                i <= self.students.len(),
                shown.len() == i,
                forall|j: int|
                    0 <= j < i ==> call_ensures(
                        T::show_info,
                        (&self.students[j],),
                        #[trigger] shown[j],
                    ),
            decreases self.students.len() - i,
        {
            let text = self.students[i].show_info();
            shown.push(text);
            i = i + 1;
        }
        shown
    }
}

} // verus!
