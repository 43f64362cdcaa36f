# Video Harness

Text-to-video and image-to-video generation through OpenRouter and fal.ai.

`src/` is the library, verified with Verus: what a draft and its media must look like before
anything is paid for, how a model's catalog entry and input schema become controls and a request,
what an answer of a provider means, how jobs are kept and resumed, how the windows react to events,
and how an earlier installation's data are taken over. It performs no input or output. Functions
that need something from outside take it as an argument or say what is to be done next, and the
caller does it. `src/outside.rs` holds the calls into other crates, each with the contract that the
proofs rest on.

`app/` is a terminal program around the library: files, databases, the network and the screen.

`tests/` runs the library on concrete values.
