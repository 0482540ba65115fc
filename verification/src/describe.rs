//! The wording of each exercise, as the operator is shown it.

use crate::tasks::{Task, TaskView};
use crate::text::{char_string, decimal, decimal_text};
use vstd::prelude::*;
use vstd::string::*;

verus! {

impl TaskView {
    /// The sentence that words the exercise. It names the kind, and with it
    /// how many numbers there are, the exponent or the character to delete.
    pub open spec fn description(self) -> Seq<char> {
        match self {
            TaskView::GCD { numbers, .. } => "[GCD] W "@ + decimal_text(numbers.len())
                + " kolejnych liniach odbierz "@ + decimal_text(numbers.len())
                + " liczb naturalnych. Policz ich największy wspólny dzielnik i wynik odeślij."@,
            TaskView::SUM { numbers, .. } => "[SUM] W "@ + decimal_text(numbers.len())
                + " kolejnych liniach odbierz "@ + decimal_text(numbers.len())
                + " liczby naturalnych. Policz sumę tych liczb i odeślij."@,
            TaskView::XK { power, .. } =>
                "[XK] Odbierz liczbę naturalną x, Oblicz największą liczbę naturalną k, taką, że k podniesione do potęgi "@
                + decimal_text(power as nat)
                + " jest nie większe niż wartość x. Odeślij wartość k."@,
            TaskView::StringDeletion { del, .. } =>
                "[SD] Odbierz napis. Usuń z niego wszystkie wystąpienia "@ + seq![del]
                + " i odeślij wynik."@,
            TaskView::StringConcat { .. } =>
                "[SC] Odbierz jedną linijkę tekstu. Skonkatenuj tekst 2 razy z samym sobą i odeślij wynik."@,
        }
    }
}

impl Task {
    /// The sentence that words the exercise.
    pub fn describe(&self) -> (text: String)
        ensures
            text@ == self@.description(),
    {
        match self {
            Task::GCD { numbers, .. } => {
                let count = decimal(numbers.len() as u64);
                let mut text = String::from_str("[GCD] W ");
                text.append(count.as_str());
                text.append(" kolejnych liniach odbierz ");
                text.append(count.as_str());
                text.append(
                    " liczb naturalnych. Policz ich największy wspólny dzielnik i wynik odeślij.",
                );
                text
            },
            Task::SUM { numbers, .. } => {
                let count = decimal(numbers.len() as u64);
                let mut text = String::from_str("[SUM] W ");
                text.append(count.as_str());
                text.append(" kolejnych liniach odbierz ");
                text.append(count.as_str());
                text.append(" liczby naturalnych. Policz sumę tych liczb i odeślij.");
                text
            },
            Task::XK { power, .. } => {
                let exponent = decimal(*power as u64);
                let mut text = String::from_str(
                    "[XK] Odbierz liczbę naturalną x, Oblicz największą liczbę naturalną k, taką, że k podniesione do potęgi ",
                );
                text.append(exponent.as_str());
                text.append(" jest nie większe niż wartość x. Odeślij wartość k.");
                text
            },
            Task::StringDeletion { del, .. } => {
                let deleted = char_string(*del);
                let mut text = String::from_str(
                    "[SD] Odbierz napis. Usuń z niego wszystkie wystąpienia ",
                );
                text.append(deleted.as_str());
                text.append(" i odeślij wynik.");
                text
            },
            Task::StringConcat { .. } => String::from_str(
                "[SC] Odbierz jedną linijkę tekstu. Skonkatenuj tekst 2 razy z samym sobą i odeślij wynik.",
            ),
        }
    }
}

} // verus!
