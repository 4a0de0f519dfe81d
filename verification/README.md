# newsletter

The verified core of a newsletter service: people sign up, confirm through a link that
carries a subscription token, and an authenticated publisher sends issues to the confirmed
subscribers.

- `src/` is the library, checked by Verus. It decides what every request is answered with:
  subscription tokens (`domain::subscription_token`), the confirmation email and the order of
  the sign-up steps (`routes::subscriptions`), confirmation (`routes::subscriptions_confirm`),
  HTTP Basic credentials, the password check and delivery of an issue
  (`routes::newsletters`), the login page (`routes::login`), and the responses of application
  errors (`error`).
- `app/` holds the axum handlers, database queries and email delivery that run those
  decisions.
- `tests/` exercise the library on concrete values.
