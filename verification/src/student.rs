//! A student record.
use vstd::prelude::*;

verus! {

/// A student and what the student majors in.
pub struct Student {
    pub name: String,
    pub major: String,
}

impl Student {
    /// Makes the record of a student.
    pub fn new(name: String, major: String) -> (student: Student)
        ensures
            student.name == name,
            student.major == major,
    {
        Student { name, major }
    }

    /// The student's major.
    pub fn get_major(&self) -> (major: &String)
        ensures
            *major == self.major,
    {
        &self.major
    }

    /// Changes the student's major; the name stays.
    pub fn set_major(&mut self, new_major: String)
        ensures
            final(self).major == new_major,
            final(self).name == old(self).name,
    {
        self.major = new_major;
    }
}

} // verus!
