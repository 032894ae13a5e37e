//! The student record.
use coursework::student::Student;

#[test]
fn major_can_be_changed() {
    let mut student = Student::new("Mariano".to_string(), "Computer Science".to_string());
    assert_eq!(student.name, "Mariano");
    assert_eq!(student.get_major(), "Computer Science");

    student.set_major("Mathematics".to_string());
    assert_eq!(student.get_major(), "Mathematics");
    assert_eq!(student.name, "Mariano");
}
