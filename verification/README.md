# group_chat_moderation

Moderation of group chat messages: a rule table finds violations in a message, scores them and
suggests what to do; batches of messages are moderated in chunks; a tracker keeps the violations
of each user and the standing that follows from them.

- `src/` is the library, verified with Verus. Every function states in its contract what it
  returns; the modules whose names end in `_laws` prove what holds across functions.
- `app/` is the HTTP service around the library: routes, JSON, the clock, logging and the
  concurrent scheduling of the chunks of a batch.
- `tests/` runs the library on concrete messages.

A message is judged by its lowercase form. The points of its violations are added up in eight
bits, and there is no verdict on the few texts on which the sum does not fit: those that hit the
political rule and all four rules of severity `High` at once. The functions whose names begin with
`checked_` answer `None` there.
