use parallel_file_processor::numbers::{
    check_guess, checked_sum, is_even, label, largest, sum, total, Label,
};
use parallel_file_processor::strings::{clone_and_modify, concat_strings};
use parallel_file_processor::students::{Enrollment, ShowInfo, Student};

struct Undergrad {
    name: String,
    major: String,
}

impl ShowInfo for Undergrad {
    fn show_info(&self) -> String {
        format!("Undergrad Student: {}\nMajor: {}\n", self.name, self.major)
    }
}

#[test]
fn even_numbers_are_told_from_odd_ones() {
    let numbers: [i32; 10] = [1, 2, 3, 5, 8, 10, 15, 21, 30, 42];
    let even: Vec<bool> = numbers.iter().map(|n| is_even(*n)).collect();
    assert_eq!(even, vec![false, true, false, false, true, true, false, false, true, true]);
    assert!(is_even(0));
    assert!(is_even(-4));
    assert!(!is_even(-3));
    assert!(!is_even(i32::MAX));
    assert!(is_even(i32::MIN));
}

#[test]
fn a_guess_is_right_too_high_or_too_low() {
    let secret = 56;
    let guesses = [30, 45, 60, 83, 56];
    let verdicts: Vec<i32> = guesses.iter().map(|g| check_guess(*g, secret)).collect();
    assert_eq!(verdicts, vec![-1, -1, 1, 1, 0]);
    assert_eq!(check_guess(i32::MIN, i32::MAX), -1);
    assert_eq!(check_guess(i32::MAX, i32::MIN), 1);
    assert_eq!(check_guess(-7, -7), 0);
}

#[test]
fn sum_adds_a_stretch_of_integers() {
    let mut total = 0;
    sum(&mut total, 0, 100);
    assert_eq!(total, 5050);

    let mut total = 7;
    sum(&mut total, 3, 3);
    assert_eq!(total, 10);

    let mut total = 7;
    sum(&mut total, 4, 3);
    assert_eq!(total, 7);

    let mut total = 1;
    sum(&mut total, -5, 5);
    assert_eq!(total, 1);

    let mut total = -10;
    sum(&mut total, -3, -1);
    assert_eq!(total, -16);

    let mut total = 0;
    sum(&mut total, i32::MAX, i32::MAX);
    assert_eq!(total, i32::MAX);
}

#[test]
fn strings_are_joined_and_the_borrowed_ones_stay() {
    let s1 = String::from("Hello, ");
    let s2 = String::from("World!");
    let result = concat_strings(&s1, &s2);
    assert_eq!(result, "Hello, World!");
    assert_eq!(s1, "Hello, ");
    assert_eq!(s2, "World!");
    assert_eq!(concat_strings(&String::new(), &s2), "World!");
    assert_eq!(concat_strings(&s1, &String::new()), "Hello, ");
    assert_eq!(concat_strings(&s2, &s1), "World!Hello, ");
}

#[test]
fn a_clone_is_modified_and_the_borrowed_string_stays() {
    let s = String::from("Hello, ");
    let modified = clone_and_modify(&s);
    assert_eq!(s, "Hello, ");
    assert_eq!(modified, "Hello, World!");
    assert_eq!(clone_and_modify(&String::new()), "World!");
}

#[test]
fn a_student_changes_major() {
    let mut student_info = Student::new("Maria".to_string(), "Computer Science".to_string());
    assert_eq!(student_info.name, "Maria");
    assert_eq!(student_info.get_major(), "Computer Science");
    student_info.set_major("Spanish".to_string());
    assert_eq!(student_info.get_major(), "Spanish");
    assert_eq!(student_info.name, "Maria");
}

#[test]
fn an_enrollment_shows_its_students_in_order() {
    let mut enrollment = Enrollment::<Undergrad>::new();
    assert!(enrollment.show_all().is_empty());
    enrollment.add_student(Undergrad {
        name: "Maria".to_string(),
        major: "Computer Science".to_string(),
    });
    enrollment.add_student(Undergrad { name: "Silvia".to_string(), major: "Physics".to_string() });
    assert_eq!(enrollment.students.len(), 2);
    assert_eq!(
        enrollment.show_all(),
        vec![
            "Undergrad Student: Maria\nMajor: Computer Science\n".to_string(),
            "Undergrad Student: Silvia\nMajor: Physics\n".to_string(),
        ]
    );
}

#[test]
fn numbers_are_labelled_by_three_and_five_first() {
    let numbers: [i32; 10] = [1, 2, 3, 5, 8, 10, 15, 21, 30, 42];
    let labels: Vec<Label> = numbers.iter().map(|n| label(*n)).collect();
    assert_eq!(
        labels,
        vec![
            Label::Odd,
            Label::Even,
            Label::Fizz,
            Label::Buzz,
            Label::Even,
            Label::Buzz,
            Label::FizzBuzz,
            Label::Fizz,
            Label::FizzBuzz,
            Label::Fizz,
        ]
    );
    assert_eq!(label(0), Label::FizzBuzz);
    assert_eq!(label(-15), Label::FizzBuzz);
    assert_eq!(label(-9), Label::Fizz);
    assert_eq!(label(-10), Label::Buzz);
    assert_eq!(label(-7), Label::Odd);
    assert_eq!(label(-8), Label::Even);
    assert_eq!(label(i32::MIN), Label::Even);
    assert_eq!(label(i32::MAX), Label::Odd);
}

#[test]
fn numbers_are_added_up_unless_a_sum_overflows() {
    let numbers: [i32; 10] = [1, 2, 3, 5, 8, 10, 15, 21, 30, 42];
    assert_eq!(total(&numbers), Some(137));
    assert_eq!(total(&[]), Some(0));
    assert_eq!(total(&[-5]), Some(-5));
    assert_eq!(total(&[i32::MAX, 0]), Some(i32::MAX));
    assert_eq!(total(&[i32::MAX, 1]), None);
    assert_eq!(total(&[i32::MAX, 1, -1]), None);
    assert_eq!(total(&[i32::MAX, -1, 1]), Some(i32::MAX));
    assert_eq!(total(&[i32::MIN, -1]), None);
    assert_eq!(total(&[i32::MIN, i32::MAX, 1]), Some(0));
}

#[test]
fn the_largest_number_is_found() {
    let numbers: [i32; 10] = [1, 2, 3, 5, 8, 10, 15, 21, 30, 42];
    assert_eq!(largest(&numbers), Some(42));
    assert_eq!(largest(&[42, 1, 2]), Some(42));
    assert_eq!(largest(&[-3, -1, -2]), Some(-1));
    assert_eq!(largest(&[7]), Some(7));
    assert_eq!(largest(&[7, 7]), Some(7));
    assert_eq!(largest(&[i32::MIN, i32::MAX, 0]), Some(i32::MAX));
    assert_eq!(largest(&[]), None);
}

#[test]
fn a_checked_sum_leaves_the_total_where_a_sum_overflows() {
    let mut total = 0;
    assert!(checked_sum(&mut total, 0, 100));
    assert_eq!(total, 5050);

    let mut total = 5;
    assert!(checked_sum(&mut total, 10, 9));
    assert_eq!(total, 5);

    let mut total = i32::MAX - 5;
    assert!(!checked_sum(&mut total, 1, 3));
    assert_eq!(total, i32::MAX - 5);

    let mut total = i32::MAX - 6;
    assert!(checked_sum(&mut total, 1, 3));
    assert_eq!(total, i32::MAX);

    // The sums on the way count, not the one at the end.
    let mut total = i32::MIN + 2;
    assert!(!checked_sum(&mut total, -3, 3));
    assert_eq!(total, i32::MIN + 2);

    let mut total = 0;
    assert!(!checked_sum(&mut total, 0, 70000));
    assert_eq!(total, 0);

    let mut total = 1;
    assert!(!checked_sum(&mut total, i32::MAX, i32::MAX));
    assert_eq!(total, 1);
}
